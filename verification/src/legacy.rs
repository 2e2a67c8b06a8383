//! Legacy dilemmas and the failure-risk formula.

use vstd::prelude::*;

use crate::config::{FailureRiskConfig, GameConfig};
use crate::data::{DilemmaDef, DilemmaEffect, DilemmaOption, GameData, LegacyDef};
use crate::fixed::{add_unit, clamp, clamp_i128, unit, BOUND, ONE};
use crate::keys::{first, lemma_first_from, lemma_first_unique};
use crate::queries::dominant_is;
use crate::rolls::Rolls;
use crate::ship::{components_ok, loadout, loadout_stats};
use crate::state::{LegacyTrack, PendingDilemma, SimState};
use crate::util::{is_blank, join3, same};

verus! {

/// The legacy ids of the catalog, in order.
pub open spec fn legacy_keys(ls: Seq<LegacyDef>) -> Seq<Seq<char>> {
    Seq::new(ls.len(), |i: int| ls[i].id@)
}

/// The dilemma ids of a legacy, in order.
pub open spec fn dilemma_keys(ds: Seq<DilemmaDef>) -> Seq<Seq<char>> {
    Seq::new(ds.len(), |i: int| ds[i].id@)
}

fn legacy_index(ls: &Vec<LegacyDef>, id: &String) -> (r: Option<usize>)
    ensures
        r matches Some(i) ==> first(legacy_keys(ls@), id@) == Some(i as int) && i < ls.len(),
        r is None ==> first(legacy_keys(ls@), id@) is None,
{
    let ghost keys = legacy_keys(ls@);
    let mut i: usize = 0;
    while i < ls.len()
        invariant
            i <= ls.len(),
            keys == legacy_keys(ls@),
            forall|j: int| 0 <= j < i ==> keys[j] != id@,
        decreases ls.len() - i,
    {
        if same(&ls[i].id, id) {
            proof {
                lemma_first_unique(keys, id@, i as int);
            }
            return Some(i);
        }
        i = i + 1;
    }
    proof {
        lemma_first_from(keys, id@, 0);
    }
    None
}

fn dilemma_index(ds: &Vec<DilemmaDef>, id: &String) -> (r: Option<usize>)
    ensures
        r matches Some(i) ==> first(dilemma_keys(ds@), id@) == Some(i as int) && i < ds.len(),
        r is None ==> first(dilemma_keys(ds@), id@) is None,
{
    let ghost keys = dilemma_keys(ds@);
    let mut i: usize = 0;
    while i < ds.len()
        invariant
            i <= ds.len(),
            keys == dilemma_keys(ds@),
            forall|j: int| 0 <= j < i ==> keys[j] != id@,
        decreases ds.len() - i,
    {
        if same(&ds[i].id, id) {
            proof {
                lemma_first_unique(keys, id@, i as int);
            }
            return Some(i);
        }
        i = i + 1;
    }
    proof {
        lemma_first_from(keys, id@, 0);
    }
    None
}

/// The dilemma a roll picks, if the generation faces one.
pub open spec fn rolled_dilemma(sim: SimState, data: GameData) -> Option<PendingDilemma> {
    if !sim.rolls.chance_value(data.config.dilemma_chance_per_generation as int) {
        None
    } else {
        match first(legacy_keys(data.legacies@), sim.legacy.legacy_id@) {
            None => None,
            Some(li) => {
                let ds = data.legacies@[li].dilemmas@;
                if ds.len() == 0 {
                    None
                } else {
                    let k = sim.rolls.advanced().below_value(ds.len() as nat);
                    Some(PendingDilemma { dilemma_id: ds[k as int].id, rolled_month_clock: sim.month_clock })
                }
            },
        }
    }
}

/// How many draws a dilemma roll consumes.
pub open spec fn dilemma_draws(sim: SimState, data: GameData) -> nat {
    if !sim.rolls.chance_value(data.config.dilemma_chance_per_generation as int) {
        1
    } else {
        match first(legacy_keys(data.legacies@), sim.legacy.legacy_id@) {
            Some(li) => if data.legacies@[li].dilemmas.len() > 0 {
                2
            } else {
                1
            },
            None => 1,
        }
    }
}

/// Roll whether the new generation faces a legacy dilemma: one draw against
/// the per-generation chance, then (when the legacy has dilemmas) one draw
/// choosing which. Nothing is applied; the dilemma is returned pending.
pub fn roll_dilemma(sim: &mut SimState, data: &GameData) -> (r: Option<PendingDilemma>)
    ensures
        match (r, rolled_dilemma(*old(sim), *data)) {
            (Some(a), Some(b)) => a.dilemma_id@ == b.dilemma_id@ && a.rolled_month_clock
                == b.rolled_month_clock,
            (None, None) => true,
            _ => false,
        },
        final(sim).rolls == old(sim).rolls.advanced_by(dilemma_draws(*old(sim), *data)),
        *final(sim) == (SimState { rolls: final(sim).rolls, ..*old(sim) }),
{
    let ghost s0 = *sim;
    if !sim.rolls.chance(data.config.dilemma_chance_per_generation) {
        proof {
            assert(s0.rolls.advanced_by(1) == s0.rolls.advanced().advanced_by(0));
        }
        return None;
    }
    let li = match legacy_index(&data.legacies, &sim.legacy.legacy_id) {
        Some(i) => i,
        None => {
            proof {
                assert(s0.rolls.advanced_by(1) == s0.rolls.advanced().advanced_by(0));
            }
            return None;
        },
    };
    let legacy = &data.legacies[li];
    if legacy.dilemmas.len() == 0 {
        proof {
            assert(s0.rolls.advanced_by(1) == s0.rolls.advanced().advanced_by(0));
        }
        return None;
    }
    let k = sim.rolls.below(legacy.dilemmas.len());
    proof {
        assert(s0.rolls.advanced_by(2) == s0.rolls.advanced().advanced_by(1));
        assert(s0.rolls.advanced().advanced_by(1) == s0.rolls.advanced().advanced().advanced_by(0));
    }
    let dilemma = &legacy.dilemmas[k];
    Some(PendingDilemma { dilemma_id: dilemma.id.clone(), rolled_month_clock: sim.month_clock })
}

/// The catalog position (legacy, dilemma) of the sim's pending dilemma.
pub open spec fn pending_position(sim: SimState, data: GameData) -> Option<(int, int)> {
    match sim.pending_dilemma {
        None => None,
        Some(p) => match first(legacy_keys(data.legacies@), sim.legacy.legacy_id@) {
            None => None,
            Some(li) => match first(dilemma_keys(data.legacies@[li].dilemmas@), p.dilemma_id@) {
                None => None,
                Some(di) => Some((li, di)),
            },
        },
    }
}

/// Look up the sim's pending dilemma definition in the catalog.
pub fn pending_dilemma_def<'a>(sim: &SimState, data: &'a GameData) -> (r: Option<&'a DilemmaDef>)
    ensures
        match pending_position(*sim, *data) {
            Some((li, di)) => r matches Some(d) && 0 <= li < data.legacies.len() && 0 <= di
                < data.legacies@[li].dilemmas.len() && *d == data.legacies@[li].dilemmas@[di],
            None => r is None,
        },
{
    let pending = match &sim.pending_dilemma {
        Some(p) => p,
        None => return None,
    };
    let li = match legacy_index(&data.legacies, &sim.legacy.legacy_id) {
        Some(i) => i,
        None => return None,
    };
    let di = match dilemma_index(&data.legacies[li].dilemmas, &pending.dilemma_id) {
        Some(i) => i,
        None => return None,
    };
    Some(&data.legacies[li].dilemmas[di])
}

/// The effective success chance of a dilemma option: its base chance, plus
/// a firepower bonus on a Wanderer campaign, plus the named faction's push
/// while it runs the ship, kept within `[0, dilemma_odds_cap]`.
pub open spec fn odds(sim: SimState, data: GameData, option: DilemmaOption) -> int {
    let combat_bonus = if sim.legacy.legacy_id@ == "wanderers"@ {
        loadout(sim.ship, data.ship_components@).combat * data.config.ship.combat_dilemma_odds_per_point
    } else {
        0
    };
    let faction_bonus = if option.dominant_faction@.len() > 0 && dominant_is(
        sim.factions@,
        option.dominant_faction@,
    ) {
        option.dominant_faction_odds as int
    } else {
        0
    };
    clamp(
        option.success_chance + combat_bonus + faction_bonus,
        0,
        data.config.ship.dilemma_odds_cap as int,
    )
}

/// See [`odds`].
pub fn dilemma_odds(sim: &SimState, data: &GameData, option: &DilemmaOption) -> (r: i64)
    requires
        data.config.wf(),
        components_ok(data.ship_components@),
    ensures
        r == odds(*sim, *data, *option),
        0 <= r <= data.config.ship.dilemma_odds_cap,
{
    proof {
        reveal_strlit("wanderers");
    }
    let wanderers = "wanderers".to_owned();
    let combat_bonus: i128 = if same(&sim.legacy.legacy_id, &wanderers) {
        let combat = loadout_stats(sim, data).combat;
        proof {
            let c = combat as int;
            let p = data.config.ship.combat_dilemma_odds_per_point as int;
            assert(-0x30_0000 * BOUND <= c * p <= 0x30_0000 * BOUND) by (nonlinear_arith)
                requires
                    -0x30_0000 <= c <= 0x30_0000,
                    -BOUND <= p <= BOUND,
            ;
        }
        (combat as i128) * (data.config.ship.combat_dilemma_odds_per_point as i128)
    } else {
        0
    };
    let faction_bonus: i64 = if !is_blank(&option.dominant_faction) && sim.is_dominant(
        option.dominant_faction.as_str(),
    ) {
        option.dominant_faction_odds
    } else {
        0
    };
    let total: i128 = (option.success_chance as i128) + combat_bonus + (faction_bonus as i128);
    clamp_i128(total, 0, data.config.ship.dilemma_odds_cap)
}

/// An i32 counter plus a change, saturating at the type's ends.
pub open spec fn sat32(v: int) -> int {
    clamp(v, i32::MIN as int, i32::MAX as int)
}

/// The legacy counters after a dilemma branch.
pub open spec fn track_after(t: LegacyTrack, e: DilemmaEffect) -> LegacyTrack {
    LegacyTrack {
        tradition_points: sat32(t.tradition_points + e.tradition_points) as i32,
        body_horror_events: sat32(t.body_horror_events + e.body_horror_events) as i32,
        existential_dread: unit(t.existential_dread + e.existential_dread) as i64,
        piracy_reputation: unit(t.piracy_reputation + e.piracy_reputation) as i64,
        ..t
    }
}

fn add_sat32(a: i32, b: i32) -> (r: i32)
    ensures
        r == sat32(a + b),
{
    let s: i64 = (a as i64) + (b as i64);
    if s < (i32::MIN as i64) {
        i32::MIN
    } else if s > (i32::MAX as i64) {
        i32::MAX
    } else {
        s as i32
    }
}

fn apply_dilemma_effect(sim: &mut SimState, effect: &DilemmaEffect)
    ensures
        final(sim).resources == old(sim).resources.applied(effect.resource_delta),
        final(sim).ship == old(sim).ship.applied(effect.ship_delta),
        final(sim).population == old(sim).population.applied(effect.population_delta),
        final(sim).legacy == track_after(old(sim).legacy, *effect),
        *final(sim) == (SimState {
            resources: final(sim).resources,
            ship: final(sim).ship,
            population: final(sim).population,
            legacy: final(sim).legacy,
            ..*old(sim)
        }),
{
    sim.resources.apply(&effect.resource_delta);
    sim.ship.apply(&effect.ship_delta);
    sim.population.apply(&effect.population_delta);
    sim.legacy.tradition_points = add_sat32(sim.legacy.tradition_points, effect.tradition_points);
    sim.legacy.body_horror_events = add_sat32(
        sim.legacy.body_horror_events,
        effect.body_horror_events,
    );
    sim.legacy.existential_dread = add_unit(sim.legacy.existential_dread, effect.existential_dread);
    sim.legacy.piracy_reputation = add_unit(sim.legacy.piracy_reputation, effect.piracy_reputation);
}

/// What resolving the pending dilemma by `option_index` does (see
/// [`resolve_dilemma`]).
pub open spec fn dilemma_resolved(s0: SimState, data: GameData, option_index: usize, s1: SimState, r: Option<String>) -> bool {
    &&& (match pending_position(s0, data) {
        Some((li, di)) => {
            let dilemma = data.legacies@[li].dilemmas@[di];
            if option_index < dilemma.options.len() {
                let option = dilemma.options@[option_index as int];
                let won = s0.rolls.chance_value(odds(s0, data, option));
                let effect = if won {
                    option.success
                } else {
                    option.failure
                };
                &&& r matches Some(text) && text@ == (if effect.log@.len() == 0 {
                    dilemma.title@ + ": "@ + option.label@
                } else {
                    effect.log@
                })
                &&& s1.resources == s0.resources.applied(effect.resource_delta)
                &&& s1.ship == s0.ship.applied(effect.ship_delta)
                &&& s1.population == s0.population.applied(
                    effect.population_delta,
                )
                &&& s1.legacy == track_after(s0.legacy, effect)
                &&& s1.rolls == s0.rolls.advanced()
                &&& s1.pending_dilemma is None
                &&& s1.log@.len() == s0.log@.len() + 1
                &&& s1.log@.last().text@ == r.unwrap()@
                &&& s1 == (SimState {
                    resources: s1.resources,
                    ship: s1.ship,
                    population: s1.population,
                    legacy: s1.legacy,
                    rolls: s1.rolls,
                    pending_dilemma: None,
                    log: s1.log,
                    ..s0
                })
            } else {
                r is None && s1 == s0
            }
        },
        None => r is None && s1 == s0,
    })
}

/// Resolve the pending dilemma with option `option_index`: one draw against
/// the option's effective odds picks the branch, which is applied (counters
/// included) and logged; the pending dilemma is cleared. `None`, changing
/// nothing, when no dilemma is pending or the option does not exist.
pub fn resolve_dilemma(sim: &mut SimState, data: &GameData, option_index: usize) -> (r: Option<String>)
    requires
        old(sim).wf(),
        data.config.wf(),
        components_ok(data.ship_components@),
    ensures
        dilemma_resolved(*old(sim), *data, option_index, *final(sim), r),
        final(sim).wf(),
{
    proof {
        reveal_strlit(": ");
    }
    let dilemma = match pending_dilemma_def(sim, data) {
        Some(d) => d,
        None => return None,
    };
    if option_index >= dilemma.options.len() {
        return None;
    }
    let option = &dilemma.options[option_index];
    let chance = dilemma_odds(sim, data, option);
    let succeeded = sim.rolls.chance(chance);
    let effect = if succeeded {
        &option.success
    } else {
        &option.failure
    };
    apply_dilemma_effect(sim, effect);
    let text = if is_blank(&effect.log) {
        join3(dilemma.title.as_str(), ": ", option.label.as_str())
    } else {
        effect.log.clone()
    };
    sim.push_log(text.clone());
    sim.pending_dilemma = None;
    Some(text)
}

/// One contributing factor of the failure-risk score.
#[derive(Debug, Clone)]
pub struct RiskFactor {
    pub label: &'static str,
    pub points: i32,
}

/// The failure-risk score and the factors behind it.
#[derive(Debug, Clone)]
pub struct FailureRisk {
    pub total: i32,
    pub at_risk: bool,
    pub factors: Vec<RiskFactor>,
}

/// Points are small enough to add up safely.
pub open spec fn risk_config_ok(fr: FailureRiskConfig) -> bool {
    &&& -0x1000_0000 <= fr.drift_points <= 0x1000_0000
    &&& -0x1000_0000 <= fr.unity_points <= 0x1000_0000
    &&& -0x1000_0000 <= fr.tradition_points <= 0x1000_0000
    &&& -0x1000_0000 <= fr.body_horror_points <= 0x1000_0000
    &&& -0x1000_0000 <= fr.dread_points <= 0x1000_0000
    &&& -0x1000_0000 <= fr.piracy_points <= 0x1000_0000
}

/// The points each risk factor contributes, in order: cultural drift and
/// unity threaten every legacy; each legacy's own counters threaten only it.
pub open spec fn risk_points(sim: SimState, fr: FailureRiskConfig) -> Seq<i32> {
    let drift = if sim.population.cultural_drift > fr.drift_threshold {
        seq![fr.drift_points]
    } else {
        Seq::empty()
    };
    let unity = if sim.population.unity < fr.unity_threshold {
        seq![fr.unity_points]
    } else {
        Seq::empty()
    };
    let id = sim.legacy.legacy_id@;
    let own = if id == "preservers"@ {
        if sim.legacy.tradition_points < fr.tradition_threshold {
            seq![fr.tradition_points]
        } else {
            Seq::empty()
        }
    } else if id == "adaptors"@ {
        (if sim.legacy.body_horror_events >= fr.body_horror_threshold {
            seq![fr.body_horror_points]
        } else {
            Seq::<i32>::empty()
        }) + (if sim.legacy.existential_dread > fr.dread_threshold {
            seq![fr.dread_points]
        } else {
            Seq::<i32>::empty()
        })
    } else if id == "wanderers"@ && sim.legacy.piracy_reputation > fr.piracy_threshold {
        seq![fr.piracy_points]
    } else {
        Seq::empty()
    };
    drift + unity + own
}

/// The sum of a list of points.
pub open spec fn total_of(s: Seq<i32>) -> int
    decreases s.len(),
{
    if s.len() == 0 {
        0
    } else {
        total_of(s.drop_last()) + s.last()
    }
}

/// The failure-risk formula: the listed factors, their total, and whether
/// the total passes the at-risk line.
pub fn failure_risk(sim: &SimState, config: &GameConfig) -> (risk: FailureRisk)
    requires
        risk_config_ok(config.failure_risk),
    ensures
        risk.factors@.len() == risk_points(*sim, config.failure_risk).len(),
        forall|i: int|
            0 <= i < risk.factors@.len() ==> (#[trigger] risk.factors@[i]).points == risk_points(
                *sim,
                config.failure_risk,
            )[i],
        risk.total == total_of(risk_points(*sim, config.failure_risk)),
        risk.at_risk == (risk.total > config.failure_risk.at_risk_threshold),
{
    proof {
        reveal_strlit("preservers");
        reveal_strlit("adaptors");
        reveal_strlit("wanderers");
    }
    let fr = &config.failure_risk;
    let ghost want = risk_points(*sim, *fr);
    let mut factors: Vec<RiskFactor> = Vec::new();
    let ghost mut pts: Seq<i32> = Seq::empty();
    if sim.population.cultural_drift > fr.drift_threshold {
        factors.push(RiskFactor { label: "Cultural drift runs high", points: fr.drift_points });
        proof { pts = pts.push(fr.drift_points); }
    }
    if sim.population.unity < fr.unity_threshold {
        factors.push(RiskFactor { label: "Unity has frayed", points: fr.unity_points });
        proof { pts = pts.push(fr.unity_points); }
    }
    let id = &sim.legacy.legacy_id;
    if same(id, &"preservers".to_owned()) {
        if sim.legacy.tradition_points < fr.tradition_threshold {
            factors.push(RiskFactor { label: "Tradition nears extinction", points: fr.tradition_points });
            proof { pts = pts.push(fr.tradition_points); }
        }
    } else if same(id, &"adaptors".to_owned()) {
        if (sim.legacy.body_horror_events as i64) >= (fr.body_horror_threshold as i64) {
            factors.push(RiskFactor { label: "The modifications have a cost", points: fr.body_horror_points });
            proof { pts = pts.push(fr.body_horror_points); }
        }
        if sim.legacy.existential_dread > fr.dread_threshold {
            factors.push(RiskFactor { label: "Existential dread spreads", points: fr.dread_points });
            proof { pts = pts.push(fr.dread_points); }
        }
    } else if same(id, &"wanderers".to_owned()) && sim.legacy.piracy_reputation > fr.piracy_threshold {
        factors.push(RiskFactor { label: "Piracy invites reprisal", points: fr.piracy_points });
        proof { pts = pts.push(fr.piracy_points); }
    }
    assert(pts =~= want);
    assert(pts.len() <= 4);
    let mut total: i32 = 0;
    let mut i: usize = 0;
    while i < factors.len()
        invariant
            i <= factors.len(),
            factors.len() == pts.len(),
            pts.len() <= 4,
            forall|j: int| 0 <= j < pts.len() ==> -0x1000_0000 <= #[trigger] pts[j] <= 0x1000_0000,
            forall|j: int| 0 <= j < factors.len() ==> (#[trigger] factors@[j]).points == pts[j],
            total == total_of(pts.subrange(0, i as int)),
            -0x1000_0000 * i <= total <= 0x1000_0000 * i,
        decreases factors.len() - i,
    {
        assert(pts.subrange(0, i + 1).drop_last() =~= pts.subrange(0, i as int));
        total = total + factors[i].points;
        i = i + 1;
    }
    assert(pts.subrange(0, pts.len() as int) =~= pts);
    let at_risk = total > fr.at_risk_threshold;
    FailureRisk { total, at_risk, factors }
}

} // verus!
