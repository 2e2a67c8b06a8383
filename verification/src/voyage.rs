//! The slow forces of a long voyage: the drift it works on its people each
//! year, the quiet-year mood of the log, who holds a clear majority, how
//! governance and power bend the ship's output, and the invariants every
//! simulated year keeps.

use vstd::prelude::*;

use crate::config::{GameConfig, VoyageDriftConfig};
use crate::data::GameData;
use crate::deltas::PopulationDelta;
use crate::factions::{faction_def, faction_def_index, host_for, lemma_host_in};
use crate::fixed::{fmul, mul_frac, scale, BOUND, ONE};
use crate::queries::{dominant, lemma_dominant};
use crate::state::{leader_index, SimState};
use crate::subsystems::state_of;

verus! {

// ---------------------------------------------------------------- the quiet year

/// The lines a quiet year draws from. The ship's condition speaks first — a
/// long hunger, then a hollowed-out crew, then a far-drifted people, then a
/// long plenty — and failing all of them the ordinary quiet is colored by
/// the dominant people's own lines, or the generic pool when it has none.
pub open spec fn quiet_pool(sim: SimState, data: GameData) -> Seq<String> {
    let fl = data.config.flavor;
    if fl.ambient_lean.len() > 0 && fl.ambient_lean_years_threshold > 0 && sim.lean_food_years
        >= fl.ambient_lean_years_threshold {
        fl.ambient_lean@
    } else if fl.ambient_hollow.len() > 0 && sim.population.count <= fl.ambient_population_threshold {
        fl.ambient_hollow@
    } else if fl.ambient_drifted.len() > 0 && sim.population.cultural_drift >= fl.ambient_drift_threshold {
        fl.ambient_drifted@
    } else if fl.ambient_fat.len() > 0 && fl.ambient_fat_years_threshold > 0 && sim.fat_food_years
        >= fl.ambient_fat_years_threshold {
        fl.ambient_fat@
    } else {
        match dominant(sim.factions@) {
            Some(b) => match faction_def(data, sim.factions@[b].faction_id@) {
                Some(d) => if d.ambient.len() > 0 {
                    d.ambient@
                } else {
                    fl.ambient@
                },
                None => fl.ambient@,
            },
            None => fl.ambient@,
        }
    }
}

/// See [`quiet_pool`].
pub fn quiet_ambient_pool<'a>(sim: &SimState, data: &'a GameData) -> (r: &'a Vec<String>)
    ensures
        r@ == quiet_pool(*sim, *data),
{
    let fl = &data.config.flavor;
    if fl.ambient_lean.len() > 0 && fl.ambient_lean_years_threshold > 0 && sim.lean_food_years
        >= fl.ambient_lean_years_threshold {
        return &fl.ambient_lean;
    }
    if fl.ambient_hollow.len() > 0 && sim.population.count <= fl.ambient_population_threshold {
        return &fl.ambient_hollow;
    }
    if fl.ambient_drifted.len() > 0 && sim.population.cultural_drift >= fl.ambient_drift_threshold {
        return &fl.ambient_drifted;
    }
    if fl.ambient_fat.len() > 0 && fl.ambient_fat_years_threshold > 0 && sim.fat_food_years
        >= fl.ambient_fat_years_threshold {
        return &fl.ambient_fat;
    }
    match sim.dominant_faction_index() {
        Some(b) => match faction_def_index(data, sim.factions[b].faction_id.as_str()) {
            Some(d) => {
                if data.factions[d].ambient.len() > 0 {
                    &data.factions[d].ambient
                } else {
                    &fl.ambient
                }
            },
            None => &fl.ambient,
        },
        None => &fl.ambient,
    }
}

// ---------------------------------------------------------------- who holds a clear majority

/// The dominant people holds a clear majority: no other people is aboard,
/// or it outnumbers the runner-up by more than a tenth.
pub open spec fn clear_majority(fs: Seq<crate::state::FactionState>) -> Option<int> {
    match dominant(fs) {
        None => None,
        Some(b) => {
            let second: int = match host_for(fs, b) {
                Some(h) => fs[h].members as int,
                None => 0,
            };
            if second == 0 || fs[b].members * 10 > second * 11 {
                Some(b)
            } else {
                None
            }
        },
    }
}

/// The id of the people holding a clear majority, if one does.
pub fn clear_majority_faction(sim: &SimState) -> (r: Option<String>)
    ensures
        match clear_majority(sim.factions@) {
            Some(b) => r matches Some(s) && s@ == sim.factions@[b].faction_id@,
            None => r is None,
        },
{
    let b = match sim.dominant_faction_index() {
        Some(b) => b,
        None => return None,
    };
    let mut second: u64 = 0;
    let mut best: Option<usize> = None;
    let mut i: usize = 0;
    while i < sim.factions.len()
        invariant
            i <= sim.factions.len(),
            b < sim.factions.len(),
            best matches Some(h) ==> crate::factions::host_in(sim.factions@, b as int, i as int) == Some(h as int)
                && h < i && second == sim.factions@[h as int].members,
            best is None ==> crate::factions::host_in(sim.factions@, b as int, i as int) is None && second == 0,
        decreases sim.factions.len() - i,
    {
        if i != b && sim.factions[i].is_aboard() {
            match best {
                None => {
                    best = Some(i);
                    second = sim.factions[i].members as u64;
                },
                Some(h) => {
                    if sim.factions[i].members > sim.factions[h].members {
                        best = Some(i);
                        second = sim.factions[i].members as u64;
                    }
                },
            }
        }
        i = i + 1;
    }
    let top = sim.factions[b].members as u64;
    if second == 0 || top * 10 > second * 11 {
        Some(sim.factions[b].faction_id.clone())
    } else {
        None
    }
}

// ---------------------------------------------------------------- governance and power

/// The share of its influence income a ship mints: full at or above the
/// governance line (or with no line), falling linearly below it toward the
/// floor at zero stability.
pub open spec fn governance_factor(sim: SimState, config: GameConfig) -> int {
    let threshold = config.influence_governance_threshold;
    let stability = sim.population.stability;
    if threshold <= 0 || stability >= threshold {
        ONE as int
    } else {
        let floor = config.influence_governance_floor;
        floor + ((ONE - floor) * stability) / (threshold as int)
    }
}

/// See [`governance_factor`].
pub fn influence_governance_factor(sim: &SimState, config: &GameConfig) -> (r: i64)
    requires
        sim.wf(),
        config.wf(),
    ensures
        r == governance_factor(*sim, *config),
        0 <= r <= ONE,
{
    let threshold = config.influence_governance_threshold;
    let stability = sim.population.stability;
    if threshold <= 0 || stability >= threshold {
        return ONE;
    }
    let floor = config.influence_governance_floor;
    proof {
        let f = floor as int;
        let s = stability as int;
        let t = threshold as int;
        assert(0 <= ((ONE - f) * s) / t <= ONE - f) by (nonlinear_arith)
            requires
                0 <= f <= ONE,
                0 <= s < t,
                t > 0,
        ;
    }
    proof {
        let f = floor as int;
        let s = stability as int;
        assert(0 <= (ONE - f) * s <= ONE * ONE) by (nonlinear_arith)
            requires
                0 <= f <= ONE,
                0 <= s <= ONE,
        ;
    }
    floor + (((ONE - floor) as i128) * (stability as i128) / (threshold as i128)) as i64
}

/// The share of its industrial output a ship keeps: full at or above the
/// low-energy line (or with no shed), else `1 - shed × (1 - energy / line)`.
pub open spec fn power_factor(sim: SimState, config: GameConfig) -> int {
    let shed = config.low_energy_production_shed;
    let threshold = config.low_energy_threshold;
    let energy: int = if sim.resources.energy >= 0 {
        sim.resources.energy as int
    } else {
        0
    };
    if shed <= 0 || threshold <= 0 || energy >= threshold {
        ONE as int
    } else {
        ONE - scale(shed as int, ONE - (energy * ONE) / (threshold as int))
    }
}

/// See [`power_factor`].
pub fn energy_production_factor(sim: &SimState, config: &GameConfig) -> (r: i64)
    requires
        config.wf(),
    ensures
        r == power_factor(*sim, *config),
        0 <= r <= ONE,
{
    let shed = config.low_energy_production_shed;
    let threshold = config.low_energy_threshold;
    if shed <= 0 || threshold <= 0 {
        return ONE;
    }
    let energy: i64 = if sim.resources.energy >= 0 {
        sim.resources.energy
    } else {
        0
    };
    if energy >= threshold {
        return ONE;
    }
    proof {
        let e = energy as int;
        let t = threshold as int;
        assert(0 <= (e * ONE) / t <= ONE) by (nonlinear_arith)
            requires
                0 <= e < t,
        ;
    }
    let filled = ((energy as i128) * (ONE as i128) / (threshold as i128)) as i64;
    ONE - mul_frac(shed, ONE - filled)
}

// ---------------------------------------------------------------- the voyage's drift

/// The multiplier on identity drift for `legacy` (one when unlisted).
pub open spec fn legacy_multiplier(vd: VoyageDriftConfig, legacy: Seq<char>) -> int {
    match crate::event_resolver::modifier_from(vd.legacy_multipliers@, legacy, 0) {
        Some(i) => vd.legacy_multipliers@[i].1 as int,
        None => ONE as int,
    }
}

/// A fraction floored at zero.
pub open spec fn floored(x: int) -> int {
    if x >= 0 {
        x
    } else {
        0
    }
}

/// The dominant people's ideology (zero when none rides or it is unlisted).
pub open spec fn ruling_ideology(sim: SimState, data: GameData) -> int {
    match dominant(sim.factions@) {
        Some(b) => match faction_def(data, sim.factions@[b].faction_id@) {
            Some(d) => d.ideology as int,
            None => 0,
        },
        None => 0,
    }
}

/// Module `id`'s know-how, or none when the ship has no such module.
pub open spec fn knowledge_or_none(sim: SimState, id: Seq<char>) -> int {
    match state_of(sim, id) {
        Some(s) => s.knowledge as int,
        None => 0,
    }
}

/// Module `id`'s condition, or none when the ship has no such module.
pub open spec fn condition_or_none(sim: SimState, id: Seq<char>) -> int {
    match state_of(sim, id) {
        Some(s) => s.condition as int,
        None => 0,
    }
}

/// One year of voyage drift: the identity terms scaled by the legacy's
/// multiplier and bent by the ruling people's ideology; cultural drift and
/// the loyalty fade slowed by the culture archive's know-how; physical
/// adaptation slowed by the infirmary's know-how and a living garden; the
/// morale and unity strain universal.
pub open spec fn drift_delta(sim: SimState, data: GameData) -> PopulationDelta {
    let vd = data.config.voyage_drift;
    let identity = scale(
        legacy_multiplier(vd, sim.legacy.legacy_id@),
        floored(ONE + scale(ruling_ideology(sim, data), vd.dominant_ideology_scale as int)),
    );
    let culture = scale(
        identity,
        floored(ONE - scale(vd.archive_drift_resistance as int, knowledge_or_none(sim, "education_culture"@))),
    );
    let adaptation = scale(
        scale(
            identity,
            floored(ONE - scale(vd.medical_adaptation_resistance as int, knowledge_or_none(sim, "medical_bay"@))),
        ),
        floored(ONE - scale(vd.agriculture_adaptation_resistance as int, condition_or_none(sim, "agriculture"@))),
    );
    PopulationDelta {
        count: 0,
        morale: vd.morale_strain_per_year,
        unity: vd.unity_strain_per_year,
        stability: 0,
        legacy_loyalty: scale(vd.legacy_loyalty_per_year as int, culture) as i64,
        adaptation: scale(vd.adaptation_per_year as int, adaptation) as i64,
        cultural_drift: scale(vd.cultural_drift_per_year as int, culture) as i64,
    }
}

/// Every people of the catalog leans within one unit either way.
pub open spec fn ideologies_ok(data: GameData) -> bool {
    forall|i: int| 0 <= i < data.factions.len() ==> -ONE <= (#[trigger] data.factions@[i]).ideology <= ONE
}

fn legacy_multiplier_of(vd: &VoyageDriftConfig, legacy: &String) -> (r: i64)
    requires
        vd.wf(),
    ensures
        r == legacy_multiplier(*vd, legacy@),
        0 <= r <= 10 * ONE,
{
    let mods = &vd.legacy_multipliers;
    let mut i: usize = 0;
    while i < mods.len()
        invariant
            i <= mods.len(),
            mods@ == vd.legacy_multipliers@,
            vd.wf(),
            crate::event_resolver::modifier_from(mods@, legacy@, 0) == crate::event_resolver::modifier_from(
                mods@,
                legacy@,
                i as int,
            ),
        decreases mods.len() - i,
    {
        if crate::util::same(&mods[i].0, legacy) {
            assert(crate::event_resolver::modifier_from(mods@, legacy@, i as int) == Some(i as int));
            return mods[i].1;
        }
        i = i + 1;
    }
    ONE
}

fn module_reading(sim: &SimState, id: &str, knowledge: bool) -> (r: i64)
    requires
        sim.wf(),
    ensures
        r == (if knowledge {
            knowledge_or_none(*sim, id@)
        } else {
            condition_or_none(*sim, id@)
        }),
        0 <= r <= ONE,
{
    match sim.subsystem_index(id) {
        Some(i) => if knowledge {
            sim.subsystems[i].knowledge
        } else {
            sim.subsystems[i].condition
        },
        None => 0,
    }
}

/// Apply one year of voyage drift to the population (see [`drift_delta`]);
/// every fraction stays in 0-1.
pub fn apply_voyage_drift(sim: &mut SimState, data: &GameData)
    requires
        old(sim).wf(),
        data.config.wf(),
        ideologies_ok(*data),
    ensures
        final(sim).population == old(sim).population.applied(drift_delta(*old(sim), *data)),
        *final(sim) == (SimState { population: final(sim).population, ..*old(sim) }),
        final(sim).wf(),
{
    let vd = &data.config.voyage_drift;
    let legacy_mult = legacy_multiplier_of(vd, &sim.legacy.legacy_id);
    let ideology: i64 = match sim.dominant_faction_index() {
        Some(b) => match faction_def_index(data, sim.factions[b].faction_id.as_str()) {
            Some(d) => data.factions[d].ideology,
            None => 0,
        },
        None => 0,
    };
    proof {
        match dominant(sim.factions@) {
            Some(b) => match crate::keys::first(crate::factions::faction_keys(data.factions@), sim.factions@[b].faction_id@) {
                Some(d) => {
                    assert(-ONE <= data.factions@[d].ideology <= ONE);
                },
                None => {},
            },
            None => {},
        }
    }
    assert(-ONE <= ideology <= ONE);
    let lean = ONE + mul_frac(ideology, vd.dominant_ideology_scale);
    let lean0 = if lean >= 0 {
        lean
    } else {
        0
    };
    let identity = fmul(legacy_mult, lean0);
    proof {
        let a = legacy_mult as int;
        let b = lean0 as int;
        assert(0 <= (a * b) / (ONE as int) <= 20 * ONE) by (nonlinear_arith)
            requires
                0 <= a <= 10 * ONE,
                0 <= b <= 2 * ONE,
        ;
        assert(a * b >= 0) by (nonlinear_arith)
            requires
                0 <= a,
                0 <= b,
        ;
    }
    assert(0 <= identity <= 20 * ONE);
    let archive = module_reading(sim, "education_culture", true);
    let medical = module_reading(sim, "medical_bay", true);
    let garden = module_reading(sim, "agriculture", false);
    let keep_culture = ONE - mul_frac(vd.archive_drift_resistance, archive);
    let keep_body = ONE - mul_frac(vd.medical_adaptation_resistance, medical);
    let keep_green = ONE - mul_frac(vd.agriculture_adaptation_resistance, garden);
    let culture = mul_frac(identity, keep_culture);
    let adaptation = mul_frac(mul_frac(identity, keep_body), keep_green);
    let d = PopulationDelta {
        count: 0,
        morale: vd.morale_strain_per_year,
        unity: vd.unity_strain_per_year,
        stability: 0,
        legacy_loyalty: fmul(vd.legacy_loyalty_per_year, culture),
        adaptation: fmul(vd.adaptation_per_year, adaptation),
        cultural_drift: fmul(vd.cultural_drift_per_year, culture),
    };
    sim.population.apply(&d);
}

// ---------------------------------------------------------------- the invariants of a year

/// What must hold at the end of any simulated year: every 0-1 fraction of
/// the people and the ship in range, food and credits never negative, and a
/// living dynasty always headed by someone.
pub open spec fn year_invariants(sim: SimState) -> bool {
    &&& 0 <= sim.population.morale <= ONE
    &&& 0 <= sim.population.unity <= ONE
    &&& 0 <= sim.population.stability <= ONE
    &&& 0 <= sim.population.legacy_loyalty <= ONE
    &&& 0 <= sim.population.adaptation <= ONE
    &&& 0 <= sim.population.cultural_drift <= ONE
    &&& 0 <= sim.ship.hull_integrity <= ONE
    &&& 0 <= sim.ship.life_support <= ONE
    &&& 0 <= sim.ship.fuel <= ONE
    &&& sim.resources.food >= 0
    &&& sim.resources.credits >= 0
    &&& (!sim.dynasty.extinct ==> leader_index(sim.dynasty.members@) is Some)
}

/// See [`year_invariants`].
pub fn year_invariants_hold(sim: &SimState) -> (r: bool)
    ensures
        r == year_invariants(*sim),
{
    let p = &sim.population;
    let s = &sim.ship;
    let fractions_ok = 0 <= p.morale && p.morale <= ONE && 0 <= p.unity && p.unity <= ONE && 0
        <= p.stability && p.stability <= ONE && 0 <= p.legacy_loyalty && p.legacy_loyalty <= ONE
        && 0 <= p.adaptation && p.adaptation <= ONE && 0 <= p.cultural_drift && p.cultural_drift
        <= ONE && 0 <= s.hull_integrity && s.hull_integrity <= ONE && 0 <= s.life_support
        && s.life_support <= ONE && 0 <= s.fuel && s.fuel <= ONE;
    let stores_ok = sim.resources.food >= 0 && sim.resources.credits >= 0;
    let led = sim.dynasty.extinct || sim.dynasty.leader_index().is_some();
    fractions_ok && stores_ok && led
}

} // verus!
