//! The economic year, applied whole on each year boundary of the month
//! clock: the route's toll, production, food upkeep, the fabricators and the
//! spoiling holds, the thinning air, the forces that steady or strain the
//! people, the ship's wear, the voyage's drift, the turning of a generation,
//! and the year's closing lines and market drift.

use vstd::prelude::*;

use crate::config::GameConfig;
use crate::data::{AnnualToll, ContractTemplate, GameData};
use crate::deltas::{PopulationDelta, ResourceDelta, ShipDelta};
use crate::fixed::{bump, cdiv, clamp, scale, BOUND, ONE};
use crate::keys::{first, lemma_first_from, lemma_first_unique};
use crate::state::{FactionState, LogEntry, PopulationState, ResourceState, ShipState, SimState};
use crate::factions::{faction_def, faction_def_index};
use crate::fixed::{fmul, mul_frac};
use crate::voyage::ideologies_ok;
use crate::tick::TickReport;
use crate::state::{Dynasty, PendingDilemma};
use crate::legacy::{dilemma_draws, pending_position, rolled_dilemma};
use crate::subsystems::{knowledge_deltas, knowledge_shift};
use crate::effects::subs_after;
use crate::event_resolver::round_half_away;
use crate::market::{drift_draw, drifted};
use crate::text::{decimal, decimal_text, fill_pooled, filled_or, pooled_fill, replace_spec};
use crate::util::{join3, join2};
use crate::subsystems::{condition_or, state_of, worn_factor};
use crate::util::same;
use crate::voyage::governance_factor;

verus! {

// ---------------------------------------------------------------- what the year reads from elsewhere

/// Per-resource production multipliers, in millionths.
#[derive(Clone, Copy, Debug, PartialEq, Eq)]
pub struct ProductionMultipliers {
    pub credits: i64,
    pub energy: i64,
    pub minerals: i64,
    pub food: i64,
    pub influence: i64,
}

/// What the simulation reads from rules kept outside this library: the
/// serving crew's skills, and the engineering bay's and culture archive's
/// couplings.
#[derive(Clone, Copy, Debug)]
pub struct ShipFactors {
    /// How the engineering bay scales a month's fuel burn under way.
    pub fuel_burn_factor: i64,
    /// The serving crew's multiplier on each resource's production.
    pub crew_production: ProductionMultipliers,
    /// The share of famine deaths the serving medic prevents.
    pub famine_loss_reduction: i64,
    /// The unity the security chief restores in a year.
    pub crew_unity_recovery: i64,
    /// How the engineering bay scales a fabrication run's yield.
    pub fabrication_factor: i64,
    /// How the engineering bay scales the hull's yearly wear.
    pub hull_decay_factor: i64,
    /// The culture archive's yearly swing on morale.
    pub education_morale: i64,
}

impl ShipFactors {
    /// Multipliers are at most tenfold, shares and swings are fractions.
    pub open spec fn wf(self) -> bool {
        &&& 0 <= self.fuel_burn_factor <= 10 * ONE
        &&& 0 <= self.crew_production.credits <= 10 * ONE
        &&& 0 <= self.crew_production.energy <= 10 * ONE
        &&& 0 <= self.crew_production.minerals <= 10 * ONE
        &&& 0 <= self.crew_production.food <= 10 * ONE
        &&& 0 <= self.crew_production.influence <= 10 * ONE
        &&& 0 <= self.famine_loss_reduction <= ONE
        &&& 0 <= self.crew_unity_recovery <= ONE
        &&& 0 <= self.fabrication_factor <= 10 * ONE
        &&& 0 <= self.hull_decay_factor <= 10 * ONE
        &&& -ONE <= self.education_morale <= ONE
    }
}

/// The log holds what it held, then `n` more lines.
pub open spec fn log_grew(s0: SimState, s1: SimState, n: int) -> bool {
    &&& s1.log.len() == s0.log.len() + n
    &&& s1.log@.subrange(0, s0.log.len() as int) == s0.log@
}

proof fn lemma_push_grew(s0: SimState, s1: SimState, text: String)
    requires
        s1.log@ == s0.log@.push(LogEntry { month_clock: s0.month_clock, text }),
    ensures
        log_grew(s0, s1, 1),
{
    assert(s1.log@.subrange(0, s0.log.len() as int) =~= s0.log@);
}

// ---------------------------------------------------------------- the route's toll

/// The charter ids, in catalog order.
pub open spec fn contract_keys(cs: Seq<ContractTemplate>) -> Seq<Seq<char>> {
    Seq::new(cs.len(), |i: int| cs[i].id@)
}

/// The catalog entry for charter `id`.
pub open spec fn charter_def(data: GameData, id: Seq<char>) -> Option<ContractTemplate> {
    match first(contract_keys(data.contracts@), id) {
        Some(i) => Some(data.contracts@[i]),
        None => None,
    }
}

/// The catalog index of charter `id`.
pub fn charter_def_index(data: &GameData, id: &str) -> (r: Option<usize>)
    ensures
        r matches Some(i) ==> i < data.contracts.len() && charter_def(*data, id@) == Some(
            data.contracts@[i as int],
        ),
        r is None ==> charter_def(*data, id@) is None,
{
    let key = id.to_owned();
    let ghost keys = contract_keys(data.contracts@);
    let mut i: usize = 0;
    while i < data.contracts.len()
        invariant
            i <= data.contracts.len(),
            keys == contract_keys(data.contracts@),
            key@ == id@,
            forall|j: int| 0 <= j < i ==> keys[j] != id@,
        decreases data.contracts.len() - i,
    {
        if same(&data.contracts[i].id, &key) {
            proof {
                lemma_first_unique(keys, id@, i as int);
            }
            return Some(i);
        }
        i = i + 1;
    }
    proof {
        lemma_first_from(keys, id@, 0);
    }
    None
}

/// A toll that takes nothing.
pub open spec fn no_toll(t: AnnualToll) -> bool {
    &&& t.resource == ResourceDelta { credits: 0, energy: 0, minerals: 0, food: 0, influence: 0 }
    &&& t.ship == ShipDelta { hull_integrity: 0, life_support: 0, fuel: 0, spare_parts: 0 }
    &&& t.population == PopulationDelta {
        count: 0,
        morale: 0,
        unity: 0,
        stability: 0,
        legacy_loyalty: 0,
        adaptation: 0,
        cultural_drift: 0,
    }
}

/// The toll the charter under way takes this year, if it takes one.
pub open spec fn route_toll(s: SimState, data: GameData) -> Option<AnnualToll> {
    match s.contract {
        Some(c) => match charter_def(data, c.template_id@) {
            Some(t) => if no_toll(t.annual_toll) {
                None
            } else {
                Some(t.annual_toll)
            },
            None => None,
        },
        None => None,
    }
}

/// The ship after a toll (unchanged for none).
pub open spec fn after_toll(s: SimState, t: Option<AnnualToll>) -> SimState {
    match t {
        Some(t) => SimState {
            resources: s.resources.applied(t.resource),
            ship: s.ship.applied(t.ship),
            population: s.population.applied(t.population),
            ..s
        },
        None => s,
    }
}

fn is_no_toll(t: &AnnualToll) -> (r: bool)
    ensures
        r == no_toll(*t),
{
    let a = &t.resource;
    let b = &t.ship;
    let c = &t.population;
    a.credits == 0 && a.energy == 0 && a.minerals == 0 && a.food == 0 && a.influence == 0
        && b.hull_integrity == 0 && b.life_support == 0 && b.fuel == 0 && b.spare_parts == 0
        && c.count == 0 && c.morale == 0 && c.unity == 0 && c.stability == 0 && c.legacy_loyalty
        == 0 && c.adaptation == 0 && c.cultural_drift == 0
}

/// A charter whose route wears at the ship takes its toll first thing in
/// the year, for the whole voyage.
pub fn land_route_toll(sim: &mut SimState, data: &GameData)
    requires
        old(sim).wf(),
    ensures
        *final(sim) == after_toll(*old(sim), route_toll(*old(sim), *data)),
        final(sim).wf(),
{
    let idx = match &sim.contract {
        Some(c) => charter_def_index(data, c.template_id.as_str()),
        None => None,
    };
    match idx {
        Some(i) => {
            let t = &data.contracts[i].annual_toll;
            if !is_no_toll(t) {
                sim.resources.apply(&t.resource);
                sim.ship.apply(&t.ship);
                sim.population.apply(&t.population);
            }
        },
        None => {},
    }
}

// ---------------------------------------------------------------- production

/// The hydroponics' lift on food: its tier times the per-tier bonus.
pub open spec fn agri_bonus(s: SimState, data: GameData) -> int {
    (match state_of(s, "agriculture"@) {
        Some(x) => x.tier as int,
        None => 0,
    }) * data.config.subsystems.agriculture_food_bonus_per_tier
}

/// The share of food a farm in its condition still grows.
pub open spec fn agri_factor(s: SimState, data: GameData) -> int {
    let p = data.config.subsystems.agriculture_condition_food_penalty as int;
    if p == 0 {
        ONE as int
    } else {
        worn_factor(p, condition_or(s, "agriculture"@, ONE as int))
    }
}

/// The production rates are whole and within range, and the farm's tier is
/// small enough for its bonus to be counted.
pub open spec fn output_ok(s: SimState) -> bool {
    &&& 0 <= s.production.credits <= BOUND
    &&& 0 <= s.production.energy <= BOUND
    &&& 0 <= s.production.minerals <= BOUND
    &&& 0 <= s.production.food <= BOUND
    &&& 0 <= s.production.influence <= BOUND
    &&& (state_of(s, "agriculture"@) matches Some(x) ==> x.tier <= 1000)
}

/// Output stays countable when the rates stand and the modules keep their
/// tiers.
pub proof fn lemma_output_kept(s0: SimState, s1: SimState)
    requires
        output_ok(s0),
        s1.production == s0.production,
        crate::effects::same_modules(s0.subsystems@, s1.subsystems@),
    ensures
        output_ok(s1),
{
    let k0 = crate::queries::sub_keys(s0.subsystems@);
    let k1 = crate::queries::sub_keys(s1.subsystems@);
    assert(k0 =~= k1);
    match first(k0, "agriculture"@) {
        Some(i) => {
            lemma_first_from(k0, "agriculture"@, 0);
        },
        None => {},
    }
}

/// The year's yield of one resource: its rate times its multiplier, in whole
/// units, rounded down.
pub open spec fn yield_of(rate: int, mult: int) -> int {
    (rate * mult) / (ONE * ONE)
}

/// What the year's production adds: each rate by the crew's multiplier,
/// food also by the farm's tier bonus and condition, influence also by how
/// well the ship is governed; each rounded down to whole units.
pub open spec fn produced(s: SimState, data: GameData, f: ShipFactors) -> ResourceDelta {
    let p = s.production;
    let m = f.crew_production;
    ResourceDelta {
        credits: yield_of(p.credits as int, m.credits as int) as i64,
        energy: yield_of(p.energy as int, m.energy as int) as i64,
        minerals: yield_of(p.minerals as int, m.minerals as int) as i64,
        food: ((p.food * m.food * (ONE + agri_bonus(s, data)) * agri_factor(s, data)) / (ONE * ONE
            * ONE * ONE)) as i64,
        influence: ((p.influence * m.influence * governance_factor(s, data.config)) / (ONE * ONE
            * ONE)) as i64,
    }
}

proof fn lemma_yield_bound(rate: int, mult: int)
    requires
        0 <= rate <= BOUND,
        0 <= mult <= 10 * ONE,
    ensures
        0 <= rate * mult <= BOUND * (10 * ONE),
        0 <= yield_of(rate, mult) <= BOUND,
{
    assert(0 <= rate * mult <= BOUND * (10 * ONE)) by (nonlinear_arith)
        requires
            0 <= rate <= BOUND,
            0 <= mult <= 10 * ONE,
    ;
    assert((rate * mult) / (ONE * ONE) <= BOUND) by (nonlinear_arith)
        requires
            0 <= rate * mult <= BOUND * (10 * ONE),
    ;
}

fn yield_i64(rate: i64, mult: i64) -> (r: i64)
    requires
        0 <= rate <= BOUND,
        0 <= mult <= 10 * ONE,
    ensures
        r == yield_of(rate as int, mult as int),
        0 <= r <= BOUND,
{
    proof {
        lemma_yield_bound(rate as int, mult as int);
    }
    ((rate as i128) * (mult as i128) / ((ONE as i128) * (ONE as i128))) as i64
}

/// Production, by the rates, the crew's skills, the farm and the governance
/// (see [`produced`]); stores floored at zero.
pub fn produce(sim: &mut SimState, data: &GameData, f: &ShipFactors)
    requires
        old(sim).wf(),
        output_ok(*old(sim)),
        data.config.wf(),
        f.wf(),
    ensures
        *final(sim) == (SimState {
            resources: old(sim).resources.applied(produced(*old(sim), *data, *f)),
            ..*old(sim)
        }),
{
    let p = sim.production;
    let m = f.crew_production;
    let credits = yield_i64(p.credits, m.credits);
    let energy = yield_i64(p.energy, m.energy);
    let minerals = yield_i64(p.minerals, m.minerals);
    let bonus = crate::subsystems::agriculture_food_bonus(sim, data);
    let cond = crate::subsystems::agriculture_condition_food_factor(sim, data);
    let gov = crate::voyage::influence_governance_factor(sim, &data.config);
    proof {
        let tier: int = match state_of(*sim, "agriculture"@) {
            Some(x) => x.tier as int,
            None => 0,
        };
        let per = data.config.subsystems.agriculture_food_bonus_per_tier as int;
        assert(0 <= tier * per <= 1000 * ONE) by (nonlinear_arith)
            requires
                0 <= tier <= 1000,
                0 <= per <= ONE,
        ;
        let a = p.food as int;
        let b = m.food as int;
        let c = ONE + bonus as int;
        let d = cond as int;
        assert(0 <= a * b <= BOUND * (10 * ONE)) by (nonlinear_arith)
            requires
                0 <= a <= BOUND,
                0 <= b <= 10 * ONE,
        ;
        assert(0 <= a * b * c <= BOUND * (10 * ONE) * (1001 * ONE)) by (nonlinear_arith)
            requires
                0 <= a * b <= BOUND * (10 * ONE),
                0 <= c <= 1001 * ONE,
        ;
        assert(0 <= a * b * c * d <= BOUND * (10 * ONE) * (1001 * ONE) * ONE) by (nonlinear_arith)
            requires
                0 <= a <= BOUND,
                0 <= b <= 10 * ONE,
                0 <= c <= 1001 * ONE,
                0 <= d <= ONE,
        ;
        assert((a * b * c * d) / (ONE * ONE * ONE * ONE) <= BOUND * 10 * 1001) by (nonlinear_arith)
            requires
                0 <= a * b * c * d <= BOUND * (10 * ONE) * (1001 * ONE) * ONE,
        ;
        let e = p.influence as int;
        let g = m.influence as int;
        let h = gov as int;
        assert(0 <= e * g <= BOUND * (10 * ONE)) by (nonlinear_arith)
            requires
                0 <= e <= BOUND,
                0 <= g <= 10 * ONE,
        ;
        assert(0 <= e * g * h <= BOUND * (10 * ONE) * ONE) by (nonlinear_arith)
            requires
                0 <= e <= BOUND,
                0 <= g <= 10 * ONE,
                0 <= h <= ONE,
        ;
        assert((e * g * h) / (ONE * ONE * ONE) <= BOUND * 10) by (nonlinear_arith)
            requires
                0 <= e * g * h <= BOUND * (10 * ONE) * ONE,
        ;
    }
    let one = ONE as i128;
    let food = ((p.food as i128) * (m.food as i128) * ((ONE + bonus) as i128) * (cond as i128) / (
    one * one * one * one)) as i64;
    let influence = ((p.influence as i128) * (m.influence as i128) * (gov as i128) / (one * one
        * one)) as i64;
    let d = ResourceDelta { credits, energy, minerals, food, influence };
    sim.resources.apply(&d);
}

// ---------------------------------------------------------------- food

/// The food the crew eats in a year, rounded up to whole units.
pub open spec fn upkeep_of(s: SimState, cfg: GameConfig) -> int {
    cdiv(s.population.count * cfg.food_per_person_per_year, ONE as int)
}

/// The share of famine deaths prevented: the medic's and the infirmary's
/// together, never more than nine in ten.
pub open spec fn famine_relief(s: SimState, data: GameData, f: ShipFactors) -> int {
    let r = f.famine_loss_reduction + scale(
        condition_or(s, "medical_bay"@, 0),
        data.config.subsystems.medical_famine_relief_per_condition as int,
    );
    if r < 900_000 {
        r
    } else {
        900_000
    }
}

/// Those a famine takes: one in fifty aboard, less the share prevented,
/// rounded up.
pub open spec fn famine_losses(s: SimState, data: GameData, f: ShipFactors) -> int {
    cdiv(s.population.count * 20_000 * (ONE - famine_relief(s, data, f)), ONE * ONE)
}

/// Whether the stores cannot feed the crew this year.
pub open spec fn starving(s: SimState, cfg: GameConfig) -> bool {
    s.resources.food < upkeep_of(s, cfg)
}

/// The ship after the year's meals: the upkeep eaten from the stores, or,
/// when they fall short, the stores emptied, the famine's dead gone and
/// morale five points down.
pub open spec fn fed(s: SimState, data: GameData, f: ShipFactors) -> SimState {
    let up = upkeep_of(s, data.config);
    if !starving(s, data.config) {
        SimState {
            resources: ResourceState { food: (s.resources.food - up) as i64, ..s.resources },
            ..s
        }
    } else {
        let n = s.population.count as int;
        let l = famine_losses(s, data, f);
        SimState {
            resources: ResourceState { food: 0, ..s.resources },
            population: PopulationState {
                count: (if l < n {
                    n - l
                } else {
                    0
                }) as u32,
                morale: (if s.population.morale >= 50_000 {
                    s.population.morale - 50_000
                } else {
                    0
                }) as i64,
                ..s.population
            },
            ..s
        }
    }
}

/// Those a famine actually takes: its toll, never more than are aboard.
pub open spec fn famine_toll(s: SimState, data: GameData, f: ShipFactors) -> int {
    let l = famine_losses(s, data, f);
    if l < s.population.count {
        l
    } else {
        s.population.count as int
    }
}

/// The line a famine that took `l` is logged with.
pub open spec fn famine_line(cfg: GameConfig, s: SimState, l: int) -> Seq<char> {
    filled_or(
        cfg.flavor.famine@,
        s.year as nat,
        "{losses}"@,
        decimal(l as nat),
        "Rations ran out. The population diminished by "@ + decimal(l as nat) + "."@,
    )
}

/// The crew eats; a famine bleeds people and morale and is logged.
pub fn feed_the_crew(sim: &mut SimState, data: &GameData, f: &ShipFactors)
    requires
        old(sim).wf(),
        data.config.wf(),
        f.wf(),
    ensures
        *final(sim) == (SimState { log: final(sim).log, ..fed(*old(sim), *data, *f) }),
        log_grew(
            *old(sim),
            *final(sim),
            if starving(*old(sim), data.config) {
                1
            } else {
                0
            },
        ),
        starving(*old(sim), data.config) ==> final(sim).log@[old(sim).log.len() as int].text@ == famine_line(
            data.config,
            *old(sim),
            famine_toll(*old(sim), *data, *f),
        ),
        final(sim).wf(),
{
    let ghost s0 = *sim;
    let cfg = &data.config;
    proof {
        let n = sim.population.count as int;
        let k = cfg.food_per_person_per_year as int;
        assert(0 <= n * k <= (u32::MAX as int) * BOUND) by (nonlinear_arith)
            requires
                0 <= n <= u32::MAX,
                0 <= k <= BOUND,
        ;
    }
    let need: i128 = (sim.population.count as i128) * (cfg.food_per_person_per_year as i128);
    let up: i128 = (need + (ONE as i128) - 1) / (ONE as i128);
    assert(up == upkeep_of(s0, *cfg));
    if (sim.resources.food as i128) >= up {
        sim.resources.food = ((sim.resources.food as i128) - up) as i64;
        proof {
            assert(sim.log@ =~= s0.log@);
            assert(sim.log@.subrange(0, s0.log.len() as int) =~= s0.log@);
        }
        return;
    }
    let relief = crate::subsystems::medical_famine_relief(sim, data);
    let r0 = f.famine_loss_reduction + relief;
    let reduction: i64 = if r0 < 900_000 {
        r0
    } else {
        900_000
    };
    let n = sim.population.count;
    proof {
        let a = n as int;
        let m = (ONE - reduction) as int;
        assert(0 <= a * 20_000 * m <= (u32::MAX as int) * 20_000 * ONE) by (nonlinear_arith)
            requires
                0 <= a <= u32::MAX,
                0 <= m <= ONE,
        ;
    }
    let toll: i128 = (n as i128) * 20_000 * ((ONE - reduction) as i128);
    let one2: i128 = (ONE as i128) * (ONE as i128);
    let l: i128 = if toll <= 0 {
        0
    } else {
        (toll + one2 - 1) / one2
    };
    assert(l == famine_losses(s0, *data, *f));
    let losses: u32 = if l < (n as i128) {
        l as u32
    } else {
        n
    };
    sim.resources.food = 0;
    sim.population.count = n - losses;
    sim.population.morale = if sim.population.morale >= 50_000 {
        sim.population.morale - 50_000
    } else {
        0
    };
    let ghost s1 = *sim;
    proof {
        reveal_strlit("{losses}");
    }
    let shown = decimal_text(losses as u64);
    let line = match fill_pooled(&cfg.flavor.famine, sim.year as usize, "{losses}", shown.as_str()) {
        Some(l) => l,
        None => join3("Rations ran out. The population diminished by ", shown.as_str(), "."),
    };
    sim.push_log(line);
    proof {
        lemma_push_grew(s1, *sim, sim.log@.last().text);
        assert(sim.log@.subrange(0, s0.log.len() as int) =~= s1.log@);
    }
}

/// The hunger and plenty streaks after a year whose food is settled.
pub open spec fn streaks(s: SimState, cfg: GameConfig) -> SimState {
    SimState {
        lean_food_years: if cfg.lean_food_threshold > 0 && s.resources.food < cfg.lean_food_threshold {
            bump(s.lean_food_years)
        } else {
            0
        },
        fat_food_years: if cfg.fat_food_threshold > 0 && s.resources.food >= cfg.fat_food_threshold {
            bump(s.fat_food_years)
        } else {
            0
        },
        ..s
    }
}

/// A store still below the lean line adds a year to the hunger streak, one
/// at or above the fat line a year to the plenty streak; otherwise each
/// streak ends.
pub fn count_food_streaks(sim: &mut SimState, config: &GameConfig)
    ensures
        *final(sim) == streaks(*old(sim), *config),
{
    let food = sim.resources.food;
    sim.lean_food_years = if config.lean_food_threshold > 0 && food < config.lean_food_threshold {
        sim.lean_food_years.saturating_add(1)
    } else {
        0
    };
    sim.fat_food_years = if config.fat_food_threshold > 0 && food >= config.fat_food_threshold {
        sim.fat_food_years.saturating_add(1)
    } else {
        0
    };
}

// ---------------------------------------------------------------- the fabricators and the holds

/// The parts one fabrication run makes: the yield scaled by the engineering
/// bay, rounded to the nearest, never less than one.
pub open spec fn fab_yield(cfg: GameConfig, f: ShipFactors) -> int {
    let y = (cfg.fabrication_parts_yield * f.fabrication_factor + ONE / 2) / (ONE as int);
    if y >= 1 {
        y
    } else {
        1
    }
}

/// Whether the fabricators run: a real energy surplus, the ore to feed them,
/// and a yield to make.
pub open spec fn fabricates(s: SimState, cfg: GameConfig) -> bool {
    &&& cfg.surplus_energy_threshold > 0
    &&& s.resources.energy >= cfg.surplus_energy_threshold
    &&& s.resources.minerals >= cfg.fabrication_minerals_cost
    &&& cfg.fabrication_parts_yield > 0
}

/// The ship after the fabricators' run (unchanged when they idle): spare
/// power and ore spent, parts made.
pub open spec fn fabricated(s: SimState, cfg: GameConfig, f: ShipFactors) -> SimState {
    if fabricates(s, cfg) {
        SimState {
            resources: ResourceState {
                energy: (s.resources.energy - cfg.fabrication_energy_cost) as i64,
                minerals: (s.resources.minerals - cfg.fabrication_minerals_cost) as i64,
                ..s.resources
            },
            ship: ShipState {
                spare_parts: clamp(s.ship.spare_parts + fab_yield(cfg, f), 0, i32::MAX as int) as i32,
                ..s.ship
            },
            ..s
        }
    } else {
        s
    }
}

/// The line a fabrication run that made `y` parts is logged with.
pub open spec fn fabrication_line(cfg: GameConfig, s: SimState, y: int) -> Seq<char> {
    filled_or(
        cfg.flavor.fabrication@,
        s.year as nat,
        "{parts}"@,
        decimal(y as nat),
        "The reactors ran easy this year; the fabricators worked spare power and raw ore into "@ + decimal(
            y as nat,
        ) + " spare parts."@,
    )
}

/// Idle reactor output and raw ore become spare parts (see [`fabricated`]);
/// a run is logged.
pub fn run_fabricators(sim: &mut SimState, data: &GameData, f: &ShipFactors)
    requires
        old(sim).wf(),
        data.config.wf(),
        f.wf(),
    ensures
        *final(sim) == (SimState { log: final(sim).log, ..fabricated(*old(sim), data.config, *f) }),
        log_grew(
            *old(sim),
            *final(sim),
            if fabricates(*old(sim), data.config) {
                1
            } else {
                0
            },
        ),
        fabricates(*old(sim), data.config) ==> final(sim).log@[old(sim).log.len() as int].text@
            == fabrication_line(data.config, *old(sim), fab_yield(data.config, *f)),
        final(sim).wf(),
{
    let ghost s0 = *sim;
    let cfg = &data.config;
    proof {
        let y = cfg.fabrication_parts_yield as int;
        let k = f.fabrication_factor as int;
        assert(0 <= y * k <= 1_000_000 * (10 * ONE)) by (nonlinear_arith)
            requires
                0 <= y <= 1_000_000,
                0 <= k <= 10 * ONE,
        ;
    }
    let y0: i64 = ((cfg.fabrication_parts_yield as i64) * f.fabrication_factor + ONE / 2) / ONE;
    let y: i64 = if y0 >= 1 {
        y0
    } else {
        1
    };
    if !(cfg.surplus_energy_threshold > 0 && sim.resources.energy >= cfg.surplus_energy_threshold
        && sim.resources.minerals >= cfg.fabrication_minerals_cost && cfg.fabrication_parts_yield > 0) {
        proof {
            assert(sim.log@.subrange(0, s0.log.len() as int) =~= s0.log@);
        }
        return;
    }
    sim.resources.energy = sim.resources.energy - cfg.fabrication_energy_cost;
    sim.resources.minerals = sim.resources.minerals - cfg.fabrication_minerals_cost;
    let parts = (sim.ship.spare_parts as i64) + y;
    sim.ship.spare_parts = if parts > (i32::MAX as i64) {
        i32::MAX
    } else {
        parts as i32
    };
    let ghost s1 = *sim;
    proof {
        reveal_strlit("{parts}");
    }
    let shown = decimal_text(y as u64);
    let line = match fill_pooled(&cfg.flavor.fabrication, sim.year as usize, "{parts}", shown.as_str()) {
        Some(l) => l,
        None => join3(
            "The reactors ran easy this year; the fabricators worked spare power and raw ore into ",
            shown.as_str(),
            " spare parts.",
        ),
    };
    sim.push_log(line);
    proof {
        lemma_push_grew(s1, *sim, sim.log@.last().text);
        assert(sim.log@.subrange(0, s0.log.len() as int) =~= s1.log@);
    }
}

/// The food that spoils: a share of what lies above what the holds keep
/// fresh, rounded to the nearest (none with no limit or no excess).
pub open spec fn spoiled_of(s: SimState, cfg: GameConfig) -> int {
    if cfg.food_carrying_capacity > 0 && s.resources.food > cfg.food_carrying_capacity {
        ((s.resources.food - cfg.food_carrying_capacity) * cfg.food_spoilage_fraction + ONE / 2) / (
        ONE as int)
    } else {
        0
    }
}

/// The stores after the year's spoilage.
pub open spec fn spoilt(s: SimState, cfg: GameConfig) -> SimState {
    let sp = spoiled_of(s, cfg);
    if sp > 0 {
        SimState { resources: ResourceState { food: (s.resources.food - sp) as i64, ..s.resources }, ..s }
    } else {
        s
    }
}

/// The line a spoilage of `sp` is logged with (the pool must have one).
pub open spec fn spoilage_line(cfg: GameConfig, s: SimState, sp: int) -> Seq<char> {
    replace_spec(
        cfg.flavor.food_spoilage@[(s.year as nat % cfg.flavor.food_spoilage@.len()) as int]@,
        "{spoiled}"@,
        decimal(sp as nat),
    )
}

/// Stores kept past what the ship can keep fresh partly rot (see
/// [`spoiled_of`]); a loss is logged when the pool has a line for it.
pub fn spoil_stores(sim: &mut SimState, data: &GameData)
    requires
        old(sim).wf(),
        data.config.wf(),
    ensures
        *final(sim) == (SimState { log: final(sim).log, ..spoilt(*old(sim), data.config) }),
        log_grew(
            *old(sim),
            *final(sim),
            if spoiled_of(*old(sim), data.config) > 0 && data.config.flavor.food_spoilage.len() > 0 {
                1
            } else {
                0
            },
        ),
        spoiled_of(*old(sim), data.config) > 0 && data.config.flavor.food_spoilage.len() > 0
            ==> final(sim).log@[old(sim).log.len() as int].text@ == spoilage_line(
            data.config,
            *old(sim),
            spoiled_of(*old(sim), data.config),
        ),
        final(sim).wf(),
{
    let ghost s0 = *sim;
    let cfg = &data.config;
    if !(cfg.food_carrying_capacity > 0 && sim.resources.food > cfg.food_carrying_capacity) {
        proof {
            assert(sim.log@.subrange(0, s0.log.len() as int) =~= s0.log@);
        }
        return;
    }
    let excess = sim.resources.food - cfg.food_carrying_capacity;
    proof {
        let e = excess as int;
        let q = cfg.food_spoilage_fraction as int;
        assert(0 <= e * q <= e * ONE) by (nonlinear_arith)
            requires
                0 < e,
                0 <= q <= ONE,
        ;
        assert((e * q + ONE / 2) / (ONE as int) <= e) by (nonlinear_arith)
            requires
                0 <= e * q <= e * ONE,
                0 < e,
        ;
    }
    let spoiled = (((excess as i128) * (cfg.food_spoilage_fraction as i128) + (ONE as i128) / 2) / (
    ONE as i128)) as i64;
    if spoiled <= 0 {
        proof {
            assert(sim.log@.subrange(0, s0.log.len() as int) =~= s0.log@);
        }
        return;
    }
    sim.resources.food = sim.resources.food - spoiled;
    let ghost s1 = *sim;
    proof {
        reveal_strlit("{spoiled}");
    }
    let shown = decimal_text(spoiled as u64);
    match fill_pooled(&cfg.flavor.food_spoilage, sim.year as usize, "{spoiled}", shown.as_str()) {
        Some(line) => {
            sim.push_log(line);
            proof {
                lemma_push_grew(s1, *sim, sim.log@.last().text);
            }
        },
        None => {
            proof {
                assert(sim.log@.subrange(0, s0.log.len() as int) =~= s0.log@);
            }
        },
    }
}

// ---------------------------------------------------------------- the air

/// The ship after a failing plant thins its crew.
pub open spec fn air_thinned(s: SimState, cfg: GameConfig) -> SimState {
    let l = crate::subsystems::life_support_loss(s, cfg);
    if l > 0 {
        SimState {
            population: PopulationState { count: (s.population.count - l) as u32, ..s.population },
            ..s
        }
    } else {
        s
    }
}

/// The line a loss of `l` to thin air is logged with.
pub open spec fn air_line(cfg: GameConfig, s: SimState, l: int) -> Seq<char> {
    filled_or(
        cfg.flavor.life_support_loss@,
        s.year as nat,
        "{losses}"@,
        decimal(l as nat),
        "The failing life-support could not hold the whole ship in breathable air; "@ + decimal(l as nat)
            + " were lost to the thinning decks."@,
    )
}

/// A life-support plant failed badly cannot hold everyone in breathable
/// air: those it loses are gone, and the loss is logged.
pub fn thin_for_air(sim: &mut SimState, data: &GameData)
    requires
        old(sim).wf(),
        data.config.wf(),
    ensures
        *final(sim) == (SimState { log: final(sim).log, ..air_thinned(*old(sim), data.config) }),
        log_grew(
            *old(sim),
            *final(sim),
            if crate::subsystems::life_support_loss(*old(sim), data.config) > 0 {
                1
            } else {
                0
            },
        ),
        crate::subsystems::life_support_loss(*old(sim), data.config) > 0 ==> final(sim).log@[old(sim).log.len() as int].text@
            == air_line(data.config, *old(sim), crate::subsystems::life_support_loss(*old(sim), data.config)),
        final(sim).wf(),
{
    let ghost s0 = *sim;
    let loss = crate::subsystems::life_support_mortality_loss(sim, data);
    if loss == 0 {
        proof {
            assert(sim.log@.subrange(0, s0.log.len() as int) =~= s0.log@);
        }
        return;
    }
    sim.population.count = sim.population.count - loss;
    let ghost s1 = *sim;
    proof {
        reveal_strlit("{losses}");
    }
    let shown = decimal_text(loss as u64);
    let line = match fill_pooled(&data.config.flavor.life_support_loss, sim.year as usize, "{losses}", shown.as_str()) {
        Some(l) => l,
        None => join3(
            "The failing life-support could not hold the whole ship in breathable air; ",
            shown.as_str(),
            " were lost to the thinning decks.",
        ),
    };
    sim.push_log(line);
    proof {
        lemma_push_grew(s1, *sim, sim.log@.last().text);
        assert(sim.log@.subrange(0, s0.log.len() as int) =~= s1.log@);
    }
}

// ---------------------------------------------------------------- what steadies or strains the people

/// The head count of the aboard peoples among the first `n`.
pub open spec fn aboard_weight(fs: Seq<FactionState>, n: int) -> int
    decreases n,
{
    if n <= 0 {
        0
    } else {
        aboard_weight(fs, n - 1) + if fs[n - 1].aboard() {
            fs[n - 1].members as int
        } else {
            0
        }
    }
}

/// Each aboard people's approval weighted by its head count, summed over the
/// first `n`.
pub open spec fn aboard_mood(fs: Seq<FactionState>, n: int) -> int
    decreases n,
{
    if n <= 0 {
        0
    } else {
        aboard_mood(fs, n - 1) + if fs[n - 1].aboard() {
            fs[n - 1].members * fs[n - 1].approval
        } else {
            0
        }
    }
}

/// The mood of the aboard peoples: their approval weighted by head count
/// (neutral with no one aboard).
pub open spec fn approval_mean(fs: Seq<FactionState>) -> int {
    let w = aboard_weight(fs, fs.len() as int);
    if w == 0 {
        ONE / 2
    } else {
        aboard_mood(fs, fs.len() as int) / w
    }
}

/// The mood of the aboard peoples (see [`approval_mean`]).
pub fn aboard_approval_mean(sim: &SimState) -> (r: i64)
    requires
        sim.wf(),
    ensures
        r == approval_mean(sim.factions@),
        0 <= r <= ONE,
{
    let fs = &sim.factions;
    let mut w: i128 = 0;
    let mut a: i128 = 0;
    let mut i: usize = 0;
    while i < fs.len()
        invariant
            i <= fs.len(),
            *fs == sim.factions,
            sim.wf(),
            w == aboard_weight(fs@, i as int),
            a == aboard_mood(fs@, i as int),
            0 <= w <= i * (u32::MAX as int),
            0 <= a <= w * ONE,
        decreases fs.len() - i,
    {
        if fs[i].is_aboard() {
            let m = fs[i].members;
            let ap = fs[i].approval;
            proof {
                assert(0 <= (m as int) * (ap as int) <= (m as int) * ONE) by (nonlinear_arith)
                    requires
                        0 <= ap <= ONE,
                        0 <= m,
                ;
                assert(i < usize::MAX);
                assert((i + 1) * (u32::MAX as int) == i * (u32::MAX as int) + u32::MAX) by (nonlinear_arith);
                assert(i * (u32::MAX as int) <= (usize::MAX as int) * (u32::MAX as int)) by (nonlinear_arith)
                    requires
                        0 <= i <= usize::MAX,
                ;
            }
            w = w + (m as i128);
            a = a + (m as i128) * (ap as i128);
        } else {
            proof {
                assert(i * (u32::MAX as int) <= (i + 1) * (u32::MAX as int)) by (nonlinear_arith);
            }
        }
        i = i + 1;
    }
    if w == 0 {
        return ONE / 2;
    }
    proof {
        assert(a / w <= ONE) by (nonlinear_arith)
            requires
                0 <= a <= w * ONE,
                w > 0,
        ;
    }
    (a / w) as i64
}

/// The narrowest and widest ideology among the first `n` aboard peoples
/// that the catalog knows.
pub open spec fn ideology_range(data: GameData, fs: Seq<FactionState>, n: int) -> Option<(int, int)>
    decreases n,
{
    if n <= 0 {
        None
    } else {
        let prev = ideology_range(data, fs, n - 1);
        if !fs[n - 1].aboard() {
            prev
        } else {
            match faction_def(data, fs[n - 1].faction_id@) {
                Some(d) => {
                    let x = d.ideology as int;
                    match prev {
                        Some((lo, hi)) => Some(
                            (if x < lo {
                                x
                            } else {
                                lo
                            }, if x > hi {
                                x
                            } else {
                                hi
                            }),
                        ),
                        None => Some((x, x)),
                    }
                },
                None => prev,
            }
        }
    }
}

/// How far apart the aboard peoples stand on the tech-tradition spectrum:
/// the span of their ideologies (nothing with no one the catalog knows).
pub open spec fn ideology_spread(data: GameData, fs: Seq<FactionState>) -> int {
    match ideology_range(data, fs, fs.len() as int) {
        Some((lo, hi)) => hi - lo,
        None => 0,
    }
}

/// See [`ideology_spread`].
pub fn aboard_ideology_spread(sim: &SimState, data: &GameData) -> (r: i64)
    requires
        ideologies_ok(*data),
    ensures
        r == ideology_spread(*data, sim.factions@),
        0 <= r <= 2 * ONE,
{
    let fs = &sim.factions;
    let mut found = false;
    let mut lo: i64 = 0;
    let mut hi: i64 = 0;
    let mut i: usize = 0;
    while i < fs.len()
        invariant
            i <= fs.len(),
            *fs == sim.factions,
            ideologies_ok(*data),
            match ideology_range(*data, fs@, i as int) {
                Some((l, h)) => found && l == lo && h == hi && -ONE <= lo <= hi <= ONE,
                None => !found,
            },
        decreases fs.len() - i,
    {
        if fs[i].is_aboard() {
            match faction_def_index(data, fs[i].faction_id.as_str()) {
                Some(d) => {
                    let x = data.factions[d].ideology;
                    if !found {
                        lo = x;
                        hi = x;
                        found = true;
                    } else {
                        if x < lo {
                            lo = x;
                        }
                        if x > hi {
                            hi = x;
                        }
                    }
                },
                None => {},
            }
        }
        i = i + 1;
    }
    if found {
        hi - lo
    } else {
        0
    }
}

/// The unity the security corps restores (none at or above the ceiling).
pub open spec fn unity_restored(s: SimState, data: GameData) -> int {
    if s.population.unity >= data.config.crew.unity_recovery_ceiling {
        0
    } else {
        scale(condition_or(s, "security"@, 0), data.config.subsystems.security_unity_recovery_per_condition as int)
    }
}

/// The stability the security corps restores (none at or above its ceiling).
pub open spec fn stability_restored(s: SimState, data: GameData) -> int {
    let c = data.config.subsystems;
    if c.security_stability_recovery_per_condition <= 0 || s.population.stability
        >= c.security_stability_recovery_ceiling {
        0
    } else {
        scale(condition_or(s, "security"@, 0), c.security_stability_recovery_per_condition as int)
    }
}

/// The people after the year's steadying: the security chief and corps
/// restore unity up to whole; the corps restores stability; the peoples'
/// mood pulls unity toward or away from whole; an ideological spread past
/// the tolerated line erodes stability.
pub open spec fn steadied(s: SimState, data: GameData, f: ShipFactors) -> SimState {
    let cfg = data.config;
    let p = s.population;
    let rec = f.crew_unity_recovery + unity_restored(s, data);
    let u1 = if rec > 0 {
        if p.unity + rec < ONE {
            p.unity + rec
        } else {
            ONE as int
        }
    } else {
        p.unity as int
    };
    let sr = stability_restored(s, data);
    let st1 = if sr > 0 {
        if p.stability + sr < ONE {
            p.stability + sr
        } else {
            ONE as int
        }
    } else {
        p.stability as int
    };
    let u2 = if cfg.approval_unity_coupling != 0 {
        clamp(
            u1 + scale(cfg.approval_unity_coupling as int, approval_mean(s.factions@) - ONE / 2),
            0,
            ONE as int,
        )
    } else {
        u1
    };
    let gap = ideology_spread(data, s.factions@) - cfg.ideology_spread_threshold;
    let st2 = if cfg.ideology_spread_stability_penalty > 0 && gap > 0 {
        let d = scale(cfg.ideology_spread_stability_penalty as int, gap);
        if st1 - d > 0 {
            st1 - d
        } else {
            0
        }
    } else {
        st1
    };
    SimState { population: PopulationState { unity: u2 as i64, stability: st2 as i64, ..p }, ..s }
}

/// What steadies or strains the ship's cohesion over a year (see
/// [`steadied`]).
pub fn steady_the_ship(sim: &mut SimState, data: &GameData, f: &ShipFactors)
    requires
        old(sim).wf(),
        data.config.wf(),
        ideologies_ok(*data),
        f.wf(),
    ensures
        *final(sim) == steadied(*old(sim), *data, *f),
        final(sim).wf(),
{
    let cfg = &data.config;
    let rec = f.crew_unity_recovery + crate::subsystems::security_unity_recovery(sim, data);
    let sr = crate::subsystems::security_stability_recovery(sim, data);
    let mood = aboard_approval_mean(sim);
    let spread = aboard_ideology_spread(sim, data);
    if rec > 0 {
        let u = sim.population.unity + rec;
        sim.population.unity = if u < ONE {
            u
        } else {
            ONE
        };
    }
    if sr > 0 {
        let st = sim.population.stability + sr;
        sim.population.stability = if st < ONE {
            st
        } else {
            ONE
        };
    }
    let coupling = cfg.approval_unity_coupling;
    if coupling != 0 {
        proof {
            let c = coupling as int;
            let d = (mood - ONE / 2) as int;
            assert(-ONE * ONE <= c * d <= ONE * ONE) by (nonlinear_arith)
                requires
                    -ONE <= c <= ONE,
                    -ONE <= d <= ONE,
            ;
        }
        let shift = fmul(coupling, mood - ONE / 2);
        let u = sim.population.unity + shift;
        sim.population.unity = if u < 0 {
            0
        } else if u > ONE {
            ONE
        } else {
            u
        };
    }
    let penalty = cfg.ideology_spread_stability_penalty;
    let gap = spread - cfg.ideology_spread_threshold;
    if penalty > 0 && gap > 0 {
        let d = mul_frac(gap, penalty);
        proof {
            crate::fixed::lemma_scale_swap(gap as int, penalty as int);
        }
        let st = sim.population.stability - d;
        sim.population.stability = if st > 0 {
            st
        } else {
            0
        };
    }
}

/// The habitat's yearly swing on morale: up when kept sound, down when
/// failing (none without one, or with no swing).
pub open spec fn habitat_swing(s: SimState, data: GameData) -> int {
    if data.config.subsystems.habitat_morale_swing == 0 {
        0
    } else {
        match state_of(s, "life_support_habitat"@) {
            Some(x) => scale(data.config.subsystems.habitat_morale_swing as int, x.condition - ONE / 2),
            None => 0,
        }
    }
}

/// Morale after the year's environment: the habitat's and the culture's
/// swings, a chronic hunger's drain and a sustained plenty's lift, each kept
/// in 0-1.
pub open spec fn heartened(s: SimState, data: GameData, f: ShipFactors) -> SimState {
    let cfg = data.config;
    let m0 = s.population.morale as int;
    let h = habitat_swing(s, data);
    let m1 = if h != 0 {
        clamp(m0 + h, 0, ONE as int)
    } else {
        m0
    };
    let m2 = if f.education_morale != 0 {
        clamp(m1 + f.education_morale, 0, ONE as int)
    } else {
        m1
    };
    let m3 = if cfg.chronic_hunger_morale_drain > 0 && s.lean_food_years >= cfg.chronic_hunger_years {
        if m2 - cfg.chronic_hunger_morale_drain > 0 {
            m2 - cfg.chronic_hunger_morale_drain
        } else {
            0
        }
    } else {
        m2
    };
    let m4 = if cfg.sustained_plenty_morale_lift > 0 && cfg.chronic_hunger_years > 0 && s.fat_food_years
        >= cfg.chronic_hunger_years {
        if m3 + cfg.sustained_plenty_morale_lift < ONE {
            m3 + cfg.sustained_plenty_morale_lift
        } else {
            ONE as int
        }
    } else {
        m3
    };
    SimState { population: PopulationState { morale: m4 as i64, ..s.population }, ..s }
}

/// The home and the culture move the crew's spirits; a long hunger wears
/// them and a long plenty lifts them (see [`heartened`]).
pub fn lift_spirits(sim: &mut SimState, data: &GameData, f: &ShipFactors)
    requires
        old(sim).wf(),
        data.config.wf(),
        f.wf(),
    ensures
        *final(sim) == heartened(*old(sim), *data, *f),
        final(sim).wf(),
{
    let cfg = &data.config;
    let h = crate::subsystems::habitat_morale_effect(sim, data);
    if h != 0 {
        sim.population.morale = crate::fixed::clamp_i128((sim.population.morale as i128) + (h as i128), 0, ONE);
    }
    let e = f.education_morale;
    if e != 0 {
        sim.population.morale = crate::fixed::clamp_i128((sim.population.morale as i128) + (e as i128), 0, ONE);
    }
    let drain = cfg.chronic_hunger_morale_drain;
    if drain > 0 && sim.lean_food_years >= cfg.chronic_hunger_years {
        let m = sim.population.morale - drain;
        sim.population.morale = if m > 0 {
            m
        } else {
            0
        };
    }
    let lift = cfg.sustained_plenty_morale_lift;
    if lift > 0 && cfg.chronic_hunger_years > 0 && sim.fat_food_years >= cfg.chronic_hunger_years {
        let m = sim.population.morale + lift;
        sim.population.morale = if m < ONE {
            m
        } else {
            ONE
        };
    }
}

// ---------------------------------------------------------------- wear

/// Whether the stores hold the year's upkeep in spare parts.
pub open spec fn maintained(s: SimState, cfg: GameConfig) -> bool {
    s.ship.spare_parts >= cfg.parts_upkeep_per_year
}

/// The year's wear factor: eased while upkeep is kept, full otherwise.
pub open spec fn wear_of(s: SimState, cfg: GameConfig) -> int {
    if maintained(s, cfg) {
        ONE - cfg.maintenance_decay_relief
    } else {
        ONE as int
    }
}

/// How much harder a year spent coasting on empty strains the ship.
pub open spec fn stall_factor(s: SimState, cfg: GameConfig) -> int {
    if s.fuel_stalled_this_year {
        cfg.provisioning.no_fuel_decay_multiplier as int
    } else {
        ONE as int
    }
}

/// How much of the life support's wear the habitat plant spares.
pub open spec fn plant_relief(s: SimState, data: GameData) -> int {
    match (
        crate::subsystems::def_of(data, "life_support_habitat"@),
        state_of(s, "life_support_habitat"@),
    ) {
        (Some(d), Some(x)) => crate::subsystems::severity(d, x),
        _ => 0,
    }
}

/// A fraction less a loss, floored at zero.
pub open spec fn less(x: int, loss: int) -> int {
    if x - loss > 0 {
        x - loss
    } else {
        0
    }
}

/// The ship after the year's wear: upkeep's parts spent while they last;
/// hull and life support worn by their yearly decay times the wear factor,
/// the stall factor and the engineering bay's (for the hull) or the plant's
/// relief (for the air); the stranding streak counted and the stall flag
/// cleared; and a chronic stranding's drain on morale.
pub open spec fn worn(s: SimState, data: GameData, f: ShipFactors) -> SimState {
    let cfg = data.config;
    let w = wear_of(s, cfg);
    let k = stall_factor(s, cfg);
    let one3 = ONE * ONE * ONE;
    let hull = less(s.ship.hull_integrity as int, (cfg.hull_decay_per_year * w * k * f.hull_decay_factor) / one3);
    let air = less(
        s.ship.life_support as int,
        (cfg.life_support_decay_per_year * w * k * (ONE - plant_relief(s, data))) / one3,
    );
    let stall = if s.fuel_stalled_this_year {
        bump(s.fuel_stall_years)
    } else {
        0
    };
    let morale = if cfg.becalmed_morale_drain > 0 && cfg.chronic_hunger_years > 0 && stall
        >= cfg.chronic_hunger_years {
        less(s.population.morale as int, cfg.becalmed_morale_drain as int)
    } else {
        s.population.morale as int
    };
    SimState {
        ship: ShipState {
            hull_integrity: hull as i64,
            life_support: air as i64,
            spare_parts: (if maintained(s, cfg) {
                s.ship.spare_parts - cfg.parts_upkeep_per_year
            } else {
                s.ship.spare_parts as int
            }) as i32,
            ..s.ship
        },
        fuel_stall_years: stall,
        fuel_stalled_this_year: false,
        population: PopulationState { morale: morale as i64, ..s.population },
        ..s
    }
}

proof fn lemma_decay_bound(a: int, w: int, k: int, g: int)
    requires
        0 <= a <= ONE,
        0 <= w <= ONE,
        0 <= k <= 10 * ONE,
        0 <= g <= 10 * ONE,
    ensures
        0 <= a * w <= ONE * ONE,
        0 <= a * w * k <= ONE * ONE * (10 * ONE),
        0 <= a * w * k * g <= ONE * ONE * (10 * ONE) * (10 * ONE),
        0 <= (a * w * k * g) / (ONE * ONE * ONE) <= 100 * ONE,
{
    assert(0 <= a * w <= ONE * ONE) by (nonlinear_arith)
        requires
            0 <= a <= ONE,
            0 <= w <= ONE,
    ;
    assert(0 <= a * w * k <= ONE * ONE * (10 * ONE)) by (nonlinear_arith)
        requires
            0 <= a * w <= ONE * ONE,
            0 <= k <= 10 * ONE,
    ;
    assert(0 <= a * w * k * g <= ONE * ONE * (10 * ONE) * (10 * ONE)) by (nonlinear_arith)
        requires
            0 <= a * w * k <= ONE * ONE * (10 * ONE),
            0 <= g <= 10 * ONE,
    ;
    assert((a * w * k * g) / (ONE * ONE * ONE) <= 100 * ONE) by (nonlinear_arith)
        requires
            0 <= a * w * k * g <= ONE * ONE * (10 * ONE) * (10 * ONE),
    ;
}

fn decay_of(a: i64, w: i64, k: i64, g: i64) -> (r: i64)
    requires
        0 <= a <= ONE,
        0 <= w <= ONE,
        0 <= k <= 10 * ONE,
        0 <= g <= 10 * ONE,
    ensures
        r == (a * w * k * g) / (ONE * ONE * ONE),
        0 <= r <= 100 * ONE,
{
    proof {
        lemma_decay_bound(a as int, w as int, k as int, g as int);
    }
    let one = ONE as i128;
    let aw = (a as i128) * (w as i128);
    let awk = aw * (k as i128);
    assert(awk as int == (a as int) * (w as int) * (k as int));
    assert(0 <= awk <= ONE * ONE * (10 * ONE));
    assert(0 <= (awk as int) * (g as int) <= 100_000_000_000_000_000_000_000_000int) by (nonlinear_arith)
        requires
            0 <= awk <= 10_000_000_000_000_000_000int,
            0 <= g <= 10_000_000,
    ;
    let awkg = awk * (g as i128);
    (awkg / (one * one * one)) as i64
}

/// The line a year coasting with dry tanks is logged with.
pub open spec fn stall_line(cfg: GameConfig, s: SimState) -> Seq<char> {
    let pool = cfg.flavor.fuel_stall@;
    if pool.len() > 0 {
        pool[(s.year as int) % (pool.len() as int)]@
    } else {
        "The tanks ran dry in transit; the ship coasted, and its systems strained in the cold."@
    }
}

/// The ship wears with the year (see [`worn`]); a year spent coasting on
/// empty tanks is logged. Returns the year's wear factor, which the modules
/// wear by too.
pub fn wear_the_ship(sim: &mut SimState, data: &GameData, f: &ShipFactors) -> (wear: i64)
    requires
        old(sim).wf(),
        data.config.wf(),
        crate::subsystems::defs_ok(data.subsystems@),
        f.wf(),
    ensures
        wear == wear_of(*old(sim), data.config),
        0 <= wear <= ONE,
        *final(sim) == (SimState { log: final(sim).log, ..worn(*old(sim), *data, *f) }),
        log_grew(
            *old(sim),
            *final(sim),
            if old(sim).fuel_stalled_this_year {
                1
            } else {
                0
            },
        ),
        old(sim).fuel_stalled_this_year ==> final(sim).log@.last().text@ == stall_line(data.config, *old(sim)),
        final(sim).wf(),
{
    let ghost s0 = *sim;
    let cfg = &data.config;
    let relief = crate::subsystems::life_support_decay_reduction(sim, data);
    let kept = sim.ship.spare_parts >= cfg.parts_upkeep_per_year;
    if kept {
        sim.ship.spare_parts = sim.ship.spare_parts - cfg.parts_upkeep_per_year;
    }
    let wear: i64 = if kept {
        ONE - cfg.maintenance_decay_relief
    } else {
        ONE
    };
    let stalled = sim.fuel_stalled_this_year;
    let k: i64 = if stalled {
        cfg.provisioning.no_fuel_decay_multiplier
    } else {
        ONE
    };
    let hull_loss = decay_of(cfg.hull_decay_per_year, wear, k, f.hull_decay_factor);
    let air_loss = decay_of(cfg.life_support_decay_per_year, wear, k, ONE - relief);
    let h = sim.ship.hull_integrity - hull_loss;
    sim.ship.hull_integrity = if h > 0 {
        h
    } else {
        0
    };
    let a = sim.ship.life_support - air_loss;
    sim.ship.life_support = if a > 0 {
        a
    } else {
        0
    };
    let ghost s1 = *sim;
    if stalled {
        let pool = &cfg.flavor.fuel_stall;
        let line = if pool.len() > 0 {
            pool[(sim.year as usize) % pool.len()].clone()
        } else {
            "The tanks ran dry in transit; the ship coasted, and its systems strained in the cold.".to_owned()
        };
        sim.push_log(line);
        proof {
            lemma_push_grew(s1, *sim, sim.log@.last().text);
        }
    }
    let ghost s2 = *sim;
    sim.fuel_stall_years = if stalled {
        sim.fuel_stall_years.saturating_add(1)
    } else {
        0
    };
    sim.fuel_stalled_this_year = false;
    let drain = cfg.becalmed_morale_drain;
    if drain > 0 && cfg.chronic_hunger_years > 0 && sim.fuel_stall_years >= cfg.chronic_hunger_years {
        let m = sim.population.morale - drain;
        sim.population.morale = if m > 0 {
            m
        } else {
            0
        };
    }
    proof {
        assert(sim.log@ == s2.log@);
        if !stalled {
            assert(sim.log@.subrange(0, s0.log.len() as int) =~= s0.log@);
        } else {
            assert(sim.log@.subrange(0, s0.log.len() as int) =~= s1.log@);
        }
    }
    wear
}

// ---------------------------------------------------------------- the turning of a generation

/// The ship with the generation counter one year further on.
pub open spec fn counted(s: SimState) -> SimState {
    SimState {
        dynasty: Dynasty { years_since_generation: bump(s.dynasty.years_since_generation), ..s.dynasty },
        ..s
    }
}

/// Whether a generation turns: the line lives and its interval has run.
pub open spec fn generation_due(s: SimState, cfg: GameConfig) -> bool {
    !s.dynasty.extinct && s.dynasty.years_since_generation >= cfg.generation_interval_years
}

/// The line a generation coming of age with `born` births is logged with
/// (the pool must have one).
pub open spec fn coming_of_age_line(cfg: GameConfig, generation: u32, born: u32) -> Seq<char> {
    let pool = cfg.flavor.coming_of_age@;
    replace_spec(
        replace_spec(pool[(generation as nat % pool.len()) as int]@, "{generation}"@, decimal(generation as nat)),
        "{births}"@,
        decimal(born as nat),
    )
}

/// What the generational renewal does to `s` (its year already counted):
/// nothing when none is due; otherwise the generation advances and its
/// tally of births resets (the births logged when there were any and a line
/// for them), knowledge passes on through the culture archive, and the
/// legacy's dilemma is rolled: one that comes is set pending, logged when
/// the catalog knows it, and asks for a decision.
pub open spec fn generation_turned(
    s: SimState,
    data: GameData,
    r0: TickReport,
    s1: SimState,
    r1: TickReport,
) -> bool {
    let cfg = data.config;
    if !generation_due(s, cfg) {
        s1 == s && r1 == r0
    } else {
        let born = s.dynasty.births_this_generation;
        let p = SimState {
            dynasty: Dynasty {
                generation: bump(s.dynasty.generation),
                years_since_generation: 0,
                births_this_generation: 0,
                ..s.dynasty
            },
            ..s
        };
        let q = SimState { subsystems: s1.subsystems, ..p };
        let d = rolled_dilemma(q, data);
        let birth_line: int = if born > 0 && cfg.flavor.coming_of_age.len() > 0 {
            1
        } else {
            0
        };
        &&& s1.subsystems@ == subs_after(p.subsystems@, knowledge_deltas(data.subsystems@, knowledge_shift(p, cfg)))
        &&& s1.dynasty == p.dynasty
        &&& s1.rolls == p.rolls.advanced_by(dilemma_draws(q, data))
        &&& match d {
            Some(x) => s1.pending_dilemma matches Some(y) && y.dilemma_id@ == x.dilemma_id@
                && y.rolled_month_clock == x.rolled_month_clock,
            None => s1.pending_dilemma == s.pending_dilemma,
        }
        &&& r1 == (TickReport { decision_required: r0.decision_required || d is Some, ..r0 })
        &&& birth_line == 1 ==> s1.log@[s.log.len() as int].text@ == coming_of_age_line(
            cfg,
            bump(s.dynasty.generation),
            born,
        )
        &&& log_grew(
            s,
            s1,
            birth_line + (if d is Some && pending_position(SimState { log: s.log, ..s1 }, data) is Some {
                1int
            } else {
                0
            }),
        )
        &&& s1 == (SimState {
            dynasty: s1.dynasty,
            subsystems: s1.subsystems,
            rolls: s1.rolls,
            pending_dilemma: s1.pending_dilemma,
            log: s1.log,
            ..s
        })
    }
}

/// The generational renewal (see [`generation_turned`]), after the year is
/// counted toward the next generation.
pub fn turn_the_generation(sim: &mut SimState, data: &GameData, report: &mut TickReport)
    requires
        old(sim).wf(),
        data.config.wf(),
    ensures
        generation_turned(counted(*old(sim)), *data, *old(report), *final(sim), *final(report)),
        final(sim).wf(),
{
    sim.dynasty.years_since_generation = sim.dynasty.years_since_generation.saturating_add(1);
    let ghost s = *sim;
    let cfg = &data.config;
    if !(!sim.dynasty.extinct && sim.dynasty.years_since_generation >= cfg.generation_interval_years) {
        return;
    }
    let births = crate::succession::process_generation(sim, data);
    let ghost p = *sim;
    if births > 0 && cfg.flavor.coming_of_age.len() > 0 {
        let pool = &cfg.flavor.coming_of_age;
        proof {
            reveal_strlit("{generation}");
            reveal_strlit("{births}");
        }
        let gen = sim.dynasty.generation;
        let gen_shown = decimal_text(gen as u64);
        let births_shown = decimal_text(births as u64);
        let named = fill_pooled(pool, gen as usize, "{generation}", gen_shown.as_str());
        match named {
            Some(l) => {
                let line = crate::text::replace_in(l.as_str(), "{births}", births_shown.as_str());
                sim.push_log(line);
            },
            None => {},
        }
    }
    let ghost pl = *sim;
    proof {
        if births > 0 && cfg.flavor.coming_of_age.len() > 0 {
            lemma_push_grew(p, pl, pl.log@.last().text);
        } else {
            assert(pl.log@.subrange(0, p.log.len() as int) =~= p.log@);
        }
    }
    crate::subsystems::transmit_knowledge(sim, data);
    let ghost t = *sim;
    let rolled = crate::legacy::roll_dilemma(sim, data);
    let ghost u = *sim;
    match rolled {
        Some(pending) => {
            sim.pending_dilemma = Some(pending);
            report.decision_required = true;
            let ghost v = *sim;
            match crate::legacy::pending_dilemma_def(sim, data) {
                Some(def) => {
                    let line = join2("The new generation faces a reckoning: ", def.title.as_str());
                    sim.push_log(line);
                    proof {
                        lemma_push_grew(v, *sim, sim.log@.last().text);
                    }
                },
                None => {},
            }
        },
        None => {},
    }
    proof {
        let q = SimState { subsystems: t.subsystems, ..p };
        assert(q == SimState { log: p.log, ..t });
        assert(rolled_dilemma(t, *data) == rolled_dilemma(q, *data));
        assert(dilemma_draws(t, *data) == dilemma_draws(q, *data));
        assert(sim.log@.subrange(0, pl.log.len() as int) =~= pl.log@.subrange(0, pl.log.len() as int)) by {
            assert(sim.log@.subrange(0, u.log.len() as int) =~= u.log@);
        }
        assert(sim.log@.subrange(0, s.log.len() as int) =~= s.log@) by {
            assert(pl.log@.subrange(0, s.log.len() as int) =~= s.log@);
            assert(sim.log@.subrange(0, pl.log.len() as int) =~= pl.log@);
        }
        if births > 0 && cfg.flavor.coming_of_age.len() > 0 {
            assert(sim.log@.subrange(0, pl.log.len() as int) =~= pl.log@);
            assert(sim.log@[s.log.len() as int] == pl.log@[s.log.len() as int]);
        }
    }
}

// ---------------------------------------------------------------- closing the year

/// Whole years since the last event.
pub open spec fn quiet_years(s: SimState) -> int {
    (if s.month_clock >= s.last_event_month_clock {
        s.month_clock - s.last_event_month_clock
    } else {
        0
    }) / 12
}

/// Whether a quiet stretch earns an ambient line this year.
pub open spec fn ambient_due(s: SimState, cfg: GameConfig) -> bool {
    let gap = cfg.flavor.ambient_gap_years as int;
    gap > 0 && quiet_years(s) > 0 && quiet_years(s) % gap == 0
}

/// The fuel gathered since the last report, in hundredths of a tank,
/// rounded to the nearest.
pub open spec fn fuel_gathered(s: SimState) -> int {
    round_half_away(s.fuel_scooped_accum * 100)
}

/// Whether this year reports the fuel gathered: a report year with a line
/// for it and at least five hundredths of a tank to tell.
pub open spec fn fuel_report_due(s: SimState, cfg: GameConfig) -> bool {
    let gap = cfg.flavor.fuel_report_gap_years as int;
    &&& gap > 0
    &&& cfg.flavor.fuel_gain.len() > 0
    &&& s.year > 0
    &&& (s.year as int) % gap == 0
    &&& fuel_gathered(s) >= 5
}

/// What closing the year does: a quiet stretch's ambient line (from the
/// pool [`crate::voyage::quiet_pool`] picks, by the year), the fuel report
/// (and its tally reset), and the market's yearly drift.
pub open spec fn year_closed(s: SimState, data: GameData, s1: SimState) -> bool {
    let cfg = data.config;
    let pool = crate::voyage::quiet_pool(s, data);
    let amb = ambient_due(s, cfg) && pool.len() > 0;
    let fuel = fuel_report_due(s, cfg);
    let n = s.market.entries.len();
    &&& log_grew(s, s1, (if amb {
        1int
    } else {
        0
    }) + (if fuel {
        1int
    } else {
        0
    }))
    &&& amb ==> s1.log@[s.log.len() as int].text@ == pool[((s.year / cfg.flavor.ambient_gap_years) as int)
        % (pool.len() as int)]@
    &&& fuel ==> s1.log@[s.log.len() + (if amb {
        1int
    } else {
        0
    })].text@ == replace_spec(
        cfg.flavor.fuel_gain@[((s.year / cfg.flavor.fuel_report_gap_years) as int) % (cfg.flavor.fuel_gain.len() as int)]@,
        "{amount}"@,
        decimal(fuel_gathered(s) as nat),
    )
    &&& s1.fuel_scooped_accum == (if fuel {
        0
    } else {
        s.fuel_scooped_accum
    })
    &&& s1.market.entries.len() == n
    &&& forall|i: int|
        0 <= i < n ==> #[trigger] s1.market.entries@[i] == drifted(
            s.market.entries@[i],
            drift_draw(s.rolls, i as nat),
        )
    &&& s1.market.impact_per_unit == s.market.impact_per_unit
    &&& s1.rolls == s.rolls.advanced_by(n as nat)
    &&& s1 == (SimState {
        log: s1.log,
        fuel_scooped_accum: s1.fuel_scooped_accum,
        market: s1.market,
        rolls: s1.rolls,
        ..s
    })
}

/// The last three facts of an economic year, in the order they are told
/// (see [`year_closed`]).
pub fn close_the_year(sim: &mut SimState, data: &GameData)
    requires
        old(sim).wf(),
        -BOUND <= old(sim).fuel_scooped_accum <= BOUND,
    ensures
        year_closed(*old(sim), *data, *final(sim)),
        final(sim).wf(),
{
    let ghost s0 = *sim;
    let fl = &data.config.flavor;
    let gap = fl.ambient_gap_years;
    if gap > 0 {
        let quiet: u32 = if sim.month_clock >= sim.last_event_month_clock {
            sim.month_clock - sim.last_event_month_clock
        } else {
            0
        } / 12;
        if quiet > 0 && quiet % gap == 0 {
            let pool = crate::voyage::quiet_ambient_pool(sim, data);
            if pool.len() > 0 {
                let idx = ((sim.year / gap) as usize) % pool.len();
                let line = pool[idx].clone();
                sim.push_log(line);
            }
        }
    }
    let ghost s1 = *sim;
    proof {
        if ambient_due(s0, data.config) && crate::voyage::quiet_pool(s0, *data).len() > 0 {
            lemma_push_grew(s0, s1, s1.log@.last().text);
        } else {
            assert(s1.log@.subrange(0, s0.log.len() as int) =~= s0.log@);
        }
    }
    let fgap = fl.fuel_report_gap_years;
    if fgap > 0 && fl.fuel_gain.len() > 0 && sim.year > 0 && sim.year % fgap == 0 {
        let x: i128 = (sim.fuel_scooped_accum as i128) * 100;
        let half: i128 = (ONE as i128) / 2;
        let amount: i128 = if x >= 0 {
            (x + half) / (ONE as i128)
        } else {
            -((-x + half) / (ONE as i128))
        };
        if amount >= 5 {
            proof {
                reveal_strlit("{amount}");
            }
            let shown = decimal_text(amount as u64);
            let idx = (sim.year / fgap) as usize;
            match fill_pooled(&fl.fuel_gain, idx, "{amount}", shown.as_str()) {
                Some(line) => sim.push_log(line),
                None => {},
            }
            sim.fuel_scooped_accum = 0;
        }
    }
    let ghost s2 = *sim;
    proof {
        if fuel_report_due(s0, data.config) {
            lemma_push_grew(s1, s2, s2.log@.last().text);
            assert(s2.log@.subrange(0, s1.log.len() as int) =~= s1.log@);
        } else {
            assert(s2.log@.subrange(0, s1.log.len() as int) =~= s1.log@);
        }
        assert(s2.log@.subrange(0, s0.log.len() as int) =~= s0.log@) by {
            assert(s2.log@.subrange(0, s1.log.len() as int) =~= s1.log@);
        }
    }
    crate::market::drift_prices(sim);
}

// ---------------------------------------------------------------- the whole year

/// The economic year, phase by phase: `tr` holds the ship before the year
/// and after each phase, in the order they are applied — the route's toll,
/// production, the loadout's bonus and fuel, the meals, the food streaks,
/// the fabricators, the spoiling holds, the thinning air, the steadying of
/// the people, their spirits, the ship's wear, the modules' wear (by the
/// same wear factor), the voyage's drift, the shared birthday, the turning
/// of a generation, and the closing of the year.
pub open spec fn year_path(
    s0: SimState,
    data: GameData,
    f: ShipFactors,
    r0: TickReport,
    r1: TickReport,
    tr: Seq<SimState>,
) -> bool {
    let cfg = data.config;
    &&& tr.len() == 17
    &&& tr[0] == s0
    &&& tr[1] == after_toll(tr[0], route_toll(tr[0], data))
    &&& tr[2] == (SimState { resources: tr[1].resources.applied(produced(tr[1], data, f)), ..tr[1] })
    &&& crate::ship::loadout_applied(tr[2], data, tr[3])
    &&& tr[4] == (SimState { log: tr[4].log, ..fed(tr[3], data, f) })
    &&& log_grew(tr[3], tr[4], if starving(tr[3], cfg) {
        1
    } else {
        0
    })
    &&& starving(tr[3], cfg) ==> tr[4].log@[tr[3].log.len() as int].text@ == famine_line(
        cfg,
        tr[3],
        famine_toll(tr[3], data, f),
    )
    &&& tr[5] == streaks(tr[4], cfg)
    &&& tr[6] == (SimState { log: tr[6].log, ..fabricated(tr[5], cfg, f) })
    &&& log_grew(tr[5], tr[6], if fabricates(tr[5], cfg) {
        1
    } else {
        0
    })
    &&& fabricates(tr[5], cfg) ==> tr[6].log@[tr[5].log.len() as int].text@ == fabrication_line(
        cfg,
        tr[5],
        fab_yield(cfg, f),
    )
    &&& tr[7] == (SimState { log: tr[7].log, ..spoilt(tr[6], cfg) })
    &&& log_grew(tr[6], tr[7], if spoiled_of(tr[6], cfg) > 0 && cfg.flavor.food_spoilage.len() > 0 {
        1
    } else {
        0
    })
    &&& spoiled_of(tr[6], cfg) > 0 && cfg.flavor.food_spoilage.len() > 0 ==> tr[7].log@[tr[6].log.len() as int].text@
        == spoilage_line(cfg, tr[6], spoiled_of(tr[6], cfg))
    &&& tr[8] == (SimState { log: tr[8].log, ..air_thinned(tr[7], cfg) })
    &&& log_grew(tr[7], tr[8], if crate::subsystems::life_support_loss(tr[7], cfg) > 0 {
        1
    } else {
        0
    })
    &&& crate::subsystems::life_support_loss(tr[7], cfg) > 0 ==> tr[8].log@[tr[7].log.len() as int].text@
        == air_line(cfg, tr[7], crate::subsystems::life_support_loss(tr[7], cfg))
    &&& tr[9] == steadied(tr[8], data, f)
    &&& tr[10] == heartened(tr[9], data, f)
    &&& tr[11] == (SimState { log: tr[11].log, ..worn(tr[10], data, f) })
    &&& log_grew(tr[10], tr[11], if tr[10].fuel_stalled_this_year {
        1
    } else {
        0
    })
    &&& tr[10].fuel_stalled_this_year ==> tr[11].log@[tr[10].log.len() as int].text@ == stall_line(cfg, tr[10])
    &&& tr[12].subsystems@ == subs_after(
        tr[11].subsystems@,
        crate::subsystems::decay_deltas(tr[11], data, wear_of(tr[10], cfg)),
    )
    &&& tr[12] == (SimState { subsystems: tr[12].subsystems, ..tr[11] })
    &&& tr[13].population == tr[12].population.applied(crate::voyage::drift_delta(tr[12], data))
    &&& tr[13] == (SimState { population: tr[13].population, ..tr[12] })
    &&& crate::mortality::aged(tr[13], data, tr[14])
    &&& generation_turned(counted(tr[14]), data, r0, tr[15], r1)
    &&& year_closed(tr[15], data, tr[16])
}

/// The year's counters: the hunger and plenty streaks each end or grow by
/// one year, and the stall counter grows by a year spent coasting on dry
/// tanks or resets, the year's stall flag cleared.
pub proof fn law_year_counters(
    s0: SimState,
    data: GameData,
    f: ShipFactors,
    r0: TickReport,
    r1: TickReport,
    tr: Seq<SimState>,
)
    requires
        year_path(s0, data, f, r0, r1, tr),
    ensures
        tr[16].lean_food_years == 0 || tr[16].lean_food_years == bump(s0.lean_food_years),
        tr[16].fat_food_years == 0 || tr[16].fat_food_years == bump(s0.fat_food_years),
        !tr[16].fuel_stalled_this_year,
        tr[16].fuel_stall_years == (if s0.fuel_stalled_this_year {
            bump(s0.fuel_stall_years)
        } else {
            0
        }),
{
    assert(tr[1].lean_food_years == s0.lean_food_years && tr[1].fat_food_years == s0.fat_food_years);
    assert(tr[1].fuel_stalled_this_year == s0.fuel_stalled_this_year && tr[1].fuel_stall_years == s0.fuel_stall_years);
    assert(tr[3].lean_food_years == tr[2].lean_food_years && tr[3].fat_food_years == tr[2].fat_food_years);
    assert(tr[3].fuel_stalled_this_year == tr[2].fuel_stalled_this_year && tr[3].fuel_stall_years == tr[2].fuel_stall_years);
    assert(tr[4].lean_food_years == tr[3].lean_food_years && tr[4].fat_food_years == tr[3].fat_food_years);
    assert(tr[4].fuel_stalled_this_year == tr[3].fuel_stalled_this_year && tr[4].fuel_stall_years == tr[3].fuel_stall_years);
    assert(tr[10].fuel_stalled_this_year == s0.fuel_stalled_this_year && tr[10].fuel_stall_years == s0.fuel_stall_years);
    assert(tr[10].lean_food_years == tr[5].lean_food_years && tr[10].fat_food_years == tr[5].fat_food_years);
    assert(tr[11].lean_food_years == tr[10].lean_food_years && tr[11].fat_food_years == tr[10].fat_food_years);
    assert(tr[13].lean_food_years == tr[11].lean_food_years && tr[13].fuel_stall_years == tr[11].fuel_stall_years);
    assert(tr[13].fat_food_years == tr[11].fat_food_years && tr[13].fuel_stalled_this_year == tr[11].fuel_stalled_this_year);
    assert(tr[14].lean_food_years == tr[13].lean_food_years && tr[14].fuel_stall_years == tr[13].fuel_stall_years);
    assert(tr[14].fat_food_years == tr[13].fat_food_years && tr[14].fuel_stalled_this_year == tr[13].fuel_stalled_this_year);
}

/// One full economic year, applied on a year boundary (see [`year_path`]).
#[verifier::spinoff_prover]
#[verifier::rlimit(60)]
pub fn year_boundary_tick(sim: &mut SimState, data: &GameData, f: &ShipFactors, report: &mut TickReport)
    requires
        old(sim).wf(),
        output_ok(*old(sim)),
        -BOUND <= old(sim).fuel_scooped_accum <= BOUND,
        data.config.wf(),
        f.wf(),
        ideologies_ok(*data),
        crate::ship::components_ok(data.ship_components@),
        crate::subsystems::defs_ok(data.subsystems@),
    ensures
        exists|tr: Seq<SimState>|
            #[trigger] year_path(*old(sim), *data, *f, *old(report), *final(report), tr) && tr[16]
                == *final(sim),
        final(sim).wf(),
        final(sim).contract == old(sim).contract,
        final(sim).year == old(sim).year,
        final(sim).month_clock == old(sim).month_clock,
        final(report).months_advanced == old(report).months_advanced,
        output_ok(*final(sim)),
        -BOUND <= final(sim).fuel_scooped_accum <= BOUND,
{
    let ghost s0 = *sim;
    let ghost r0 = *report;
    land_route_toll(sim, data);
    let ghost s1 = *sim;
    produce(sim, data, f);
    let ghost s2 = *sim;
    crate::ship::apply_loadout_effects(sim, data);
    let ghost s3 = *sim;
    feed_the_crew(sim, data, f);
    let ghost s4 = *sim;
    count_food_streaks(sim, &data.config);
    let ghost s5 = *sim;
    run_fabricators(sim, data, f);
    let ghost s6 = *sim;
    spoil_stores(sim, data);
    let ghost s7 = *sim;
    thin_for_air(sim, data);
    let ghost s8 = *sim;
    steady_the_ship(sim, data, f);
    let ghost s9 = *sim;
    lift_spirits(sim, data, f);
    let ghost s10 = *sim;
    let wear = wear_the_ship(sim, data, f);
    let ghost s11 = *sim;
    crate::subsystems::decay_subsystems(sim, data, wear);
    let ghost s12 = *sim;
    crate::voyage::apply_voyage_drift(sim, data);
    let ghost s13 = *sim;
    crate::mortality::annual_aging(sim, data);
    let ghost s14 = *sim;
    turn_the_generation(sim, data, report);
    let ghost s15 = *sim;
    close_the_year(sim, data);
    proof {
        let tr = seq![s0, s1, s2, s3, s4, s5, s6, s7, s8, s9, s10, s11, s12, s13, s14, s15, *sim];
        assert(year_path(s0, *data, *f, r0, *report, tr));
        crate::effects::lemma_subs_after_same_modules(
            s11.subsystems@,
            crate::subsystems::decay_deltas(s11, *data, wear as int),
        );
        lemma_output_kept(s0, s11);
        lemma_output_kept(s11, s12);
        lemma_output_kept(s12, s14);
        let c = counted(s14);
        if generation_due(c, data.config) {
            let p = SimState {
                dynasty: Dynasty {
                    generation: bump(c.dynasty.generation),
                    years_since_generation: 0,
                    births_this_generation: 0,
                    ..c.dynasty
                },
                ..c
            };
            crate::effects::lemma_subs_after_same_modules(
                p.subsystems@,
                knowledge_deltas(data.subsystems@, knowledge_shift(p, data.config)),
            );
        }
        lemma_output_kept(s14, s15);
        lemma_output_kept(s15, *sim);
    }
}

} // verus!
