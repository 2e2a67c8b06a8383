//! Ship-module services: event buffering, the repair/upgrade/train verbs,
//! generational knowledge transfer, and each module's standing effects.

use vstd::prelude::*;

use crate::config::{bounded, frac, GameConfig};
use crate::data::{GameData, SubsystemDef, TierDef};
use crate::deltas::{PopulationDelta, ResourceDelta, ShipDelta};
use crate::fixed::{add_unit, clamp, fmul, mul_frac, scale, unit, BOUND, ONE};
use crate::keys::{first, lemma_first_from, lemma_first_unique};
use crate::queries::sub_keys;
use crate::state::{SimState, SubsystemState};
use crate::text::{line_with_name, pooled_line, signed_decimal, signed_decimal_text};
use crate::util::{is_blank, join2, join3, same};

verus! {

/// A module definition whose numbers stay in range.
pub open spec fn def_ok(d: SubsystemDef) -> bool {
    &&& bounded(d.repair_minerals_cost as int)
    &&& d.repair_parts_cost >= 0
    &&& frac(d.decay_per_year as int)
    &&& d.tiers.len() < 0xFFFF_FFFF
    &&& forall|i: int|
        0 <= i < d.tiers.len() ==> {
            let t = #[trigger] d.tiers@[i];
            &&& frac(t.severity_reduction as int)
            &&& frac(t.weight_multiplier as int)
            &&& bounded(t.cost.credits as int)
            &&& bounded(t.cost.energy as int)
            &&& bounded(t.cost.minerals as int)
            &&& bounded(t.cost.food as int)
            &&& bounded(t.cost.influence as int)
        }
}

/// Every module definition of the catalog is in range.
pub open spec fn defs_ok(ds: Seq<SubsystemDef>) -> bool {
    forall|i: int| 0 <= i < ds.len() ==> def_ok(#[trigger] ds[i])
}

/// The catalog's module ids, in order.
pub open spec fn def_keys(ds: Seq<SubsystemDef>) -> Seq<Seq<char>> {
    Seq::new(ds.len(), |i: int| ds[i].id@)
}

/// The sim's state for module `id`.
pub open spec fn state_of(sim: SimState, id: Seq<char>) -> Option<SubsystemState> {
    match first(sub_keys(sim.subsystems@), id) {
        Some(i) => Some(sim.subsystems@[i]),
        None => None,
    }
}

/// The stats of tier `tier` (tier 0 is the unupgraded baseline, with none).
pub open spec fn tier_stats(d: SubsystemDef, tier: u32) -> Option<TierDef> {
    if tier == 0 || tier > d.tiers.len() {
        None
    } else {
        Some(d.tiers@[tier - 1])
    }
}

/// The first module of the catalog (in catalog order) buffering `family`.
pub open spec fn buffer_from(ds: Seq<SubsystemDef>, family: Seq<char>, start: int) -> Option<int>
    decreases ds.len() - start,
{
    if start < 0 || start >= ds.len() {
        None
    } else if ds[start].buffers_family@ == family {
        Some(start)
    } else {
        buffer_from(ds, family, start + 1)
    }
}

/// The module buffering `family`; none for the empty family.
pub open spec fn buffering(ds: Seq<SubsystemDef>, family: Seq<char>) -> Option<int> {
    if family.len() == 0 {
        None
    } else {
        buffer_from(ds, family, 0)
    }
}

proof fn lemma_buffer_from(ds: Seq<SubsystemDef>, family: Seq<char>, start: int)
    requires
        0 <= start,
    ensures
        buffer_from(ds, family, start) matches Some(i) ==> start <= i < ds.len(),
    decreases ds.len() - start,
{
    if start < ds.len() && ds[start].buffers_family@ != family {
        lemma_buffer_from(ds, family, start + 1);
    }
}

fn buffering_def<'a>(data: &'a GameData, family: &String) -> (r: Option<&'a SubsystemDef>)
    ensures
        match buffering(data.subsystems@, family@) {
            Some(i) => r matches Some(d) && 0 <= i < data.subsystems.len() && *d
                == data.subsystems@[i],
            None => r is None,
        },
{
    if is_blank(family) {
        return None;
    }
    let ds = &data.subsystems;
    let mut i: usize = 0;
    while i < ds.len()
        invariant
            i <= ds.len(),
            ds@ == data.subsystems@,
            family@.len() > 0,
            buffer_from(ds@, family@, 0) == buffer_from(ds@, family@, i as int),
        decreases ds.len() - i,
    {
        if same(&ds[i].buffers_family, family) {
            assert(buffer_from(ds@, family@, i as int) == Some(i as int));
            return Some(&ds[i]);
        }
        i = i + 1;
    }
    None
}

fn state_index(sim: &SimState, id: &String) -> (r: Option<usize>)
    ensures
        r matches Some(i) ==> i < sim.subsystems.len() && state_of(*sim, id@) == Some(
            sim.subsystems@[i as int],
        ) && first(sub_keys(sim.subsystems@), id@) == Some(i as int),
        r is None ==> state_of(*sim, id@) is None && first(sub_keys(sim.subsystems@), id@) is None,
{
    sim.subsystem_index(id.as_str())
}

/// Buffer strength (0-1) of a module now: its tier's severity reduction
/// scaled by condition; the baseline tier gives none.
pub open spec fn severity(d: SubsystemDef, s: SubsystemState) -> int {
    match tier_stats(d, s.tier) {
        Some(t) => unit(scale(t.severity_reduction as int, s.condition as int)),
        None => 0,
    }
}

fn effective_severity(def: &SubsystemDef, state: &SubsystemState) -> (r: i64)
    requires
        def_ok(*def),
        0 <= state.condition <= ONE,
    ensures
        r == severity(*def, *state),
        0 <= r <= ONE,
{
    if state.tier == 0 || (state.tier as usize) > def.tiers.len() {
        return 0;
    }
    let t = &def.tiers[(state.tier - 1) as usize];
    proof {
        assert(frac(def.tiers@[state.tier - 1].severity_reduction as int));
    }
    let v = mul_frac(t.severity_reduction, state.condition);
    crate::fixed::clamp_i64(v, 0, ONE)
}

/// The roll-weight factor for an event of `family`: a buffering module makes
/// its family rarer by condition, `1 - (1 - weight_multiplier) × condition`.
pub open spec fn family_factor(sim: SimState, data: GameData, family: Seq<char>) -> int {
    match buffering(data.subsystems@, family) {
        None => ONE as int,
        Some(di) => {
            let d = data.subsystems@[di];
            match state_of(sim, d.id@) {
                None => ONE as int,
                Some(s) => match tier_stats(d, s.tier) {
                    None => ONE as int,
                    Some(t) => ONE - scale(ONE - t.weight_multiplier, s.condition as int),
                },
            }
        },
    }
}

/// See [`family_factor`].
pub fn family_weight_factor(sim: &SimState, data: &GameData, family: &String) -> (r: i64)
    requires
        sim.wf(),
        defs_ok(data.subsystems@),
    ensures
        r == family_factor(*sim, *data, family@),
        0 <= r <= ONE,
{
    let def = match buffering_def(data, family) {
        Some(d) => d,
        None => return ONE,
    };
    proof {
        let di = buffering(data.subsystems@, family@).unwrap();
        assert(def_ok(data.subsystems@[di]));
    }
    let i = match state_index(sim, &def.id) {
        Some(i) => i,
        None => return ONE,
    };
    let state = &sim.subsystems[i];
    if state.tier == 0 || (state.tier as usize) > def.tiers.len() {
        return ONE;
    }
    let t = &def.tiers[(state.tier - 1) as usize];
    proof {
        assert(frac(def.tiers@[state.tier - 1].weight_multiplier as int));
        assert(0 <= sim.subsystems@[i as int].condition <= ONE);
    }
    ONE - mul_frac(ONE - t.weight_multiplier, state.condition)
}

/// A harm softened by `f`; a boon untouched.
pub open spec fn soften(x: int, f: int) -> int {
    if x < 0 {
        scale(x, f)
    } else {
        x
    }
}

/// The factor a family's harm is scaled by: one minus the buffering module's
/// strength (one when nothing buffers it).
pub open spec fn harm_factor(sim: SimState, data: GameData, family: Seq<char>) -> int {
    match buffering(data.subsystems@, family) {
        None => ONE as int,
        Some(di) => match state_of(sim, data.subsystems@[di].id@) {
            None => ONE as int,
            Some(s) => ONE - severity(data.subsystems@[di], s),
        },
    }
}

/// Resource harm softened.
pub open spec fn soft_resource(d: ResourceDelta, f: int) -> ResourceDelta {
    ResourceDelta {
        credits: soften(d.credits as int, f) as i64,
        energy: soften(d.energy as int, f) as i64,
        minerals: soften(d.minerals as int, f) as i64,
        food: soften(d.food as int, f) as i64,
        influence: soften(d.influence as int, f) as i64,
    }
}

/// Ship harm softened.
pub open spec fn soft_ship(d: ShipDelta, f: int) -> ShipDelta {
    ShipDelta {
        hull_integrity: soften(d.hull_integrity as int, f) as i64,
        life_support: soften(d.life_support as int, f) as i64,
        fuel: soften(d.fuel as int, f) as i64,
        spare_parts: soften(d.spare_parts as int, f) as i32,
    }
}

/// Population harm softened.
pub open spec fn soft_population(d: PopulationDelta, f: int) -> PopulationDelta {
    PopulationDelta {
        count: soften(d.count as int, f) as i32,
        morale: soften(d.morale as int, f) as i64,
        unity: soften(d.unity as int, f) as i64,
        stability: soften(d.stability as int, f) as i64,
        legacy_loyalty: soften(d.legacy_loyalty as int, f) as i64,
        adaptation: soften(d.adaptation as int, f) as i64,
        cultural_drift: soften(d.cultural_drift as int, f) as i64,
    }
}

fn soften_i64(x: i64, f: i64) -> (r: i64)
    requires
        0 <= f <= ONE,
    ensures
        r == soften(x as int, f as int),
{
    if x < 0 {
        mul_frac(x, f)
    } else {
        x
    }
}

fn soften_i32(x: i32, f: i64) -> (r: i32)
    requires
        0 <= f <= ONE,
    ensures
        r == soften(x as int, f as int),
{
    if x < 0 {
        mul_frac(x as i64, f) as i32
    } else {
        x
    }
}

/// Scale every negative component of an outcome's deltas by the module
/// buffering `family`; the positive components pass untouched. With no
/// buffer (or a buffer of no strength) the deltas come back as given.
pub fn buffered_deltas(
    sim: &SimState,
    data: &GameData,
    family: &String,
    resource: ResourceDelta,
    ship: ShipDelta,
    population: PopulationDelta,
) -> (r: (ResourceDelta, ShipDelta, PopulationDelta))
    requires
        sim.wf(),
        defs_ok(data.subsystems@),
    ensures
        ({
            let f = harm_factor(*sim, *data, family@);
            &&& 0 <= f <= ONE
            &&& r.0 == soft_resource(resource, f)
            &&& r.1 == soft_ship(ship, f)
            &&& r.2 == soft_population(population, f)
        }),
{
    let factor: i64 = match buffering_def(data, family) {
        Some(def) => {
            proof {
                let di = buffering(data.subsystems@, family@).unwrap();
                assert(def_ok(data.subsystems@[di]));
            }
            match state_index(sim, &def.id) {
                Some(i) => {
                    proof {
                        assert(0 <= sim.subsystems@[i as int].condition <= ONE);
                    }
                    ONE - effective_severity(def, &sim.subsystems[i])
                },
                None => ONE,
            }
        },
        None => ONE,
    };
    proof {
        if factor >= ONE {
            assert(factor == ONE);
            assert forall|x: int| #[trigger] soften(x, ONE as int) == x by {
                if x < 0 {
                    assert(x * ONE < 0) by (nonlinear_arith)
                        requires
                            x < 0,
                    ;
                    assert((-(x * ONE)) / (ONE as int) == -x) by (nonlinear_arith)
                        requires
                            x < 0,
                    ;
                }
            }
        }
    }
    if factor >= ONE {
        return (resource, ship, population);
    }
    let r = ResourceDelta {
        credits: soften_i64(resource.credits, factor),
        energy: soften_i64(resource.energy, factor),
        minerals: soften_i64(resource.minerals, factor),
        food: soften_i64(resource.food, factor),
        influence: soften_i64(resource.influence, factor),
    };
    let s = ShipDelta {
        hull_integrity: soften_i64(ship.hull_integrity, factor),
        life_support: soften_i64(ship.life_support, factor),
        fuel: soften_i64(ship.fuel, factor),
        spare_parts: soften_i32(ship.spare_parts, factor),
    };
    let p = PopulationDelta {
        count: soften_i32(population.count, factor),
        morale: soften_i64(population.morale, factor),
        unity: soften_i64(population.unity, factor),
        stability: soften_i64(population.stability, factor),
        legacy_loyalty: soften_i64(population.legacy_loyalty, factor),
        adaptation: soften_i64(population.adaptation, factor),
        cultural_drift: soften_i64(population.cultural_drift, factor),
    };
    (r, s, p)
}

fn def_index(ds: &Vec<SubsystemDef>, id: &str) -> (r: Option<usize>)
    ensures
        r matches Some(i) ==> first(def_keys(ds@), id@) == Some(i as int) && i < ds.len(),
        r is None ==> first(def_keys(ds@), id@) is None,
{
    let key = id.to_owned();
    let ghost keys = def_keys(ds@);
    let mut i: usize = 0;
    while i < ds.len()
        invariant
            i <= ds.len(),
            keys == def_keys(ds@),
            key@ == id@,
            forall|j: int| 0 <= j < i ==> keys[j] != id@,
        decreases ds.len() - i,
    {
        if same(&ds[i].id, &key) {
            proof {
                lemma_first_unique(keys, id@, i as int);
            }
            return Some(i);
        }
        i = i + 1;
    }
    proof {
        lemma_first_from(keys, id@, 0);
    }
    None
}

/// The catalog definition of module `id`.
pub open spec fn def_of(data: GameData, id: Seq<char>) -> Option<SubsystemDef> {
    match first(def_keys(data.subsystems@), id) {
        Some(i) => Some(data.subsystems@[i]),
        None => None,
    }
}

/// The parts-and-minerals bill of a module repair.
pub open spec fn repair_bill(d: SubsystemDef) -> ResourceDelta {
    ResourceDelta { credits: 0, energy: 0, minerals: (-d.repair_minerals_cost) as i64, food: 0, influence: 0 }
}

/// Where a repair of module `id` gets it: whole in port, else up by the field
/// gain but never past the field ceiling.
pub open spec fn repaired_condition(sim: SimState, config: GameConfig, current: int) -> int {
    if sim.contract is None {
        ONE as int
    } else if current + config.repair.field_gain < config.repair.field_ceiling {
        current + config.repair.field_gain
    } else {
        config.repair.field_ceiling as int
    }
}

/// Whether a repair of module `id` goes ahead: a known module, living
/// expertise, below what this place can restore, and the parts and minerals
/// in hand.
pub open spec fn repair_allowed(sim: SimState, data: GameData, id: Seq<char>) -> bool {
    match def_of(data, id) {
        None => false,
        Some(d) => {
            let s = state_of(sim, id);
            let knowledge = match s {
                Some(s) => s.knowledge as int,
                None => 0,
            };
            let current = match s {
                Some(s) => s.condition as int,
                None => 0,
            };
            let ceiling = if sim.contract is None {
                ONE as int
            } else {
                data.config.repair.field_ceiling as int
            };
            &&& knowledge >= d.repair_knowledge_required
            &&& current < ceiling
            &&& sim.ship.spare_parts >= d.repair_parts_cost
            &&& sim.resources.affords(repair_bill(d))
        },
    }
}

/// Why a repair of module `id` is refused, checked in order: an unknown
/// module, no living expertise, already as sound as this place allows, or
/// parts or minerals short.
pub open spec fn repair_refusal(sim: SimState, data: GameData, id: Seq<char>) -> Seq<char> {
    match def_of(data, id) {
        None => "Unknown subsystem."@,
        Some(d) => {
            let s = state_of(sim, id);
            let knowledge = match s {
                Some(s) => s.knowledge as int,
                None => 0,
            };
            let current = match s {
                Some(s) => s.condition as int,
                None => 0,
            };
            let ceiling = if sim.contract is None {
                ONE as int
            } else {
                data.config.repair.field_ceiling as int
            };
            if knowledge < d.repair_knowledge_required {
                "No one aboard remembers how to mend the "@ + d.name@ + "."@
            } else if current >= ceiling {
                "It is already as sound as this can make it here."@
            } else {
                "Not enough spare parts or minerals to mend it."@
            }
        },
    }
}

/// Repair module `id`, underway or in port: it needs living expertise
/// (knowledge at the module's threshold), then spends parts and minerals to
/// restore condition (whole in port, up to the field ceiling underway) and
/// logs a pooled line naming the module. Refused, changing nothing,
/// otherwise.
pub fn repair_subsystem(sim: &mut SimState, data: &GameData, id: &str) -> (res: Result<(), String>)
    requires
        old(sim).wf(),
        data.config.wf(),
        defs_ok(data.subsystems@),
    ensures
        res is Ok <==> repair_allowed(*old(sim), *data, id@),
        res is Err ==> *final(sim) == *old(sim),
        res matches Err(e) ==> e@ == repair_refusal(*old(sim), *data, id@),
        res is Ok ==> {
            let d = def_of(*data, id@).unwrap();
            let current = match state_of(*old(sim), id@) {
                Some(s) => s.condition as int,
                None => 0,
            };
            let restored = repaired_condition(*old(sim), data.config, current);
            &&& final(sim).resources == old(sim).resources.applied(repair_bill(d))
            &&& final(sim).ship.spare_parts == old(sim).ship.spare_parts - d.repair_parts_cost
            &&& final(sim).subsystems@ == (match first(sub_keys(old(sim).subsystems@), id@) {
                Some(i) => old(sim).subsystems@.update(
                    i,
                    SubsystemState { condition: restored as i64, ..old(sim).subsystems@[i] },
                ),
                None => old(sim).subsystems@,
            })
            &&& final(sim).log@.len() == old(sim).log@.len() + 1
            &&& final(sim).log@.last().text@ == (match pooled_line(
                data.config.flavor.subsystem_repair@,
                old(sim).month_clock as nat,
                d.name@,
            ) {
                Some(l) => l,
                None => "The "@ + d.name@ + " is patched back toward working order."@,
            })
            &&& final(sim).wf()
            &&& *final(sim) == (SimState {
                resources: final(sim).resources,
                ship: crate::state::ShipState { spare_parts: final(sim).ship.spare_parts, ..old(sim).ship },
                subsystems: final(sim).subsystems,
                log: final(sim).log,
                ..*old(sim)
            })
        },
{
    proof {
        reveal_strlit("The ");
        reveal_strlit(" is patched back toward working order.");
    }
    let di = match def_index(&data.subsystems, id) {
        Some(i) => i,
        None => return Err(String::from_str("Unknown subsystem.")),
    };
    let def = &data.subsystems[di];
    proof {
        assert(def_ok(data.subsystems@[di as int]));
    }
    let si = sim.subsystem_index(id);
    let knowledge = match si {
        Some(i) => sim.subsystems[i].knowledge,
        None => 0,
    };
    if knowledge < def.repair_knowledge_required {
        return Err(join3("No one aboard remembers how to mend the ", def.name.as_str(), "."));
    }
    let current = match si {
        Some(i) => sim.subsystems[i].condition,
        None => 0,
    };
    let in_port = sim.contract.is_none();
    let ceiling = if in_port {
        ONE
    } else {
        data.config.repair.field_ceiling
    };
    if current >= ceiling {
        return Err(String::from_str("It is already as sound as this can make it here."));
    }
    let minerals = ResourceDelta {
        credits: 0,
        energy: 0,
        minerals: -def.repair_minerals_cost,
        food: 0,
        influence: 0,
    };
    if sim.ship.spare_parts < def.repair_parts_cost || !sim.resources.can_afford(&minerals) {
        return Err(String::from_str("Not enough spare parts or minerals to mend it."));
    }
    sim.resources.apply(&minerals);
    sim.ship.spare_parts = sim.ship.spare_parts - def.repair_parts_cost;
    let restored = if in_port {
        ONE
    } else if current + data.config.repair.field_gain < ceiling {
        current + data.config.repair.field_gain
    } else {
        ceiling
    };
    match si {
        Some(i) => {
            sim.subsystems[i].condition = restored;
        },
        None => {},
    }
    let line = match line_with_name(
        &data.config.flavor.subsystem_repair,
        sim.month_clock as usize,
        def.name.as_str(),
    ) {
        Some(l) => l,
        None => join3("The ", def.name.as_str(), " is patched back toward working order."),
    };
    sim.push_log(line);
    Ok(())
}

/// The cost of the next tier, negated into a bill.
pub open spec fn tier_bill(t: TierDef) -> ResourceDelta {
    ResourceDelta {
        credits: (-t.cost.credits) as i64,
        energy: (-t.cost.energy) as i64,
        minerals: (-t.cost.minerals) as i64,
        food: (-t.cost.food) as i64,
        influence: (-t.cost.influence) as i64,
    }
}

/// The module's current tier (0 when the ship has no state for it).
pub open spec fn tier_now(sim: SimState, id: Seq<char>) -> u32 {
    match state_of(sim, id) {
        Some(s) => s.tier,
        None => 0,
    }
}

/// Whether an upgrade of module `id` goes ahead: in port, a known module
/// below its top tier, and the next tier's cost affordable.
pub open spec fn upgrade_allowed(sim: SimState, data: GameData, id: Seq<char>) -> bool {
    &&& sim.contract is None
    &&& def_of(data, id) matches Some(d) && {
        let t = tier_now(sim, id);
        &&& t < d.tiers.len()
        &&& sim.resources.affords(tier_bill(d.tiers@[t as int]))
    }
}

/// Why an upgrade of module `id` is refused, checked in order: underway,
/// an unknown module, already at the top tier, or the cost unaffordable.
pub open spec fn upgrade_refusal(sim: SimState, data: GameData, id: Seq<char>) -> Seq<char> {
    if sim.contract is Some {
        "Subsystems are rebuilt in drydock, between missions."@
    } else {
        match def_of(data, id) {
            None => "Unknown subsystem."@,
            Some(d) => if tier_now(sim, id) >= d.tiers.len() {
                "The "@ + d.name@ + " is already at its highest tier."@
            } else {
                "The treasury cannot cover that upgrade."@
            },
        }
    }
}

/// Upgrade module `id` one tier, in port only, paying the next tier's cost
/// and logging the tier's own line (a generic one when it has none).
/// Refused, changing nothing, otherwise.
pub fn upgrade_subsystem(sim: &mut SimState, data: &GameData, id: &str) -> (res: Result<(), String>)
    requires
        old(sim).wf(),
        defs_ok(data.subsystems@),
    ensures
        res is Ok <==> upgrade_allowed(*old(sim), *data, id@),
        res is Err ==> *final(sim) == *old(sim),
        res matches Err(e) ==> e@ == upgrade_refusal(*old(sim), *data, id@),
        res is Ok ==> {
            let d = def_of(*data, id@).unwrap();
            let t = d.tiers@[tier_now(*old(sim), id@) as int];
            &&& final(sim).resources == old(sim).resources.applied(tier_bill(t))
            &&& final(sim).subsystems@ == (match first(sub_keys(old(sim).subsystems@), id@) {
                Some(i) => old(sim).subsystems@.update(
                    i,
                    SubsystemState { tier: (old(sim).subsystems@[i].tier + 1) as u32, ..old(sim).subsystems@[i] },
                ),
                None => old(sim).subsystems@,
            })
            &&& final(sim).log@.len() == old(sim).log@.len() + 1
            &&& final(sim).log@.last().text@ == (if t.flavor@.len() == 0 {
                "The "@ + d.name@ + " is rebuilt stronger."@
            } else {
                t.flavor@
            })
            &&& *final(sim) == (SimState {
                resources: final(sim).resources,
                subsystems: final(sim).subsystems,
                log: final(sim).log,
                ..*old(sim)
            })
        },
{
    proof {
        reveal_strlit("The ");
        reveal_strlit(" is rebuilt stronger.");
    }
    if sim.contract.is_some() {
        return Err(String::from_str("Subsystems are rebuilt in drydock, between missions."));
    }
    let di = match def_index(&data.subsystems, id) {
        Some(i) => i,
        None => return Err(String::from_str("Unknown subsystem.")),
    };
    let def = &data.subsystems[di];
    proof {
        assert(def_ok(data.subsystems@[di as int]));
    }
    let si = sim.subsystem_index(id);
    let tier = match si {
        Some(i) => sim.subsystems[i].tier,
        None => 0,
    };
    if (tier as usize) >= def.tiers.len() {
        return Err(join3("The ", def.name.as_str(), " is already at its highest tier."));
    }
    let next = &def.tiers[tier as usize];
    proof {
        let t = def.tiers@[tier as int];
        assert(bounded(t.cost.credits as int));
    }
    let cost = ResourceDelta {
        credits: -next.cost.credits,
        energy: -next.cost.energy,
        minerals: -next.cost.minerals,
        food: -next.cost.food,
        influence: -next.cost.influence,
    };
    if !sim.resources.can_afford(&cost) {
        return Err(String::from_str("The treasury cannot cover that upgrade."));
    }
    sim.resources.apply(&cost);
    match si {
        Some(i) => {
            let t = sim.subsystems[i].tier;
            assert(t < def.tiers.len());
            assert(def.tiers.len() < 0xFFFF_FFFF);
            sim.subsystems[i].tier = t + 1;
        },
        None => {},
    }
    let line = if is_blank(&next.flavor) {
        join3("The ", def.name.as_str(), " is rebuilt stronger.")
    } else {
        next.flavor.clone()
    };
    sim.push_log(line);
    Ok(())
}

/// The training fee.
pub open spec fn training_bill(config: GameConfig) -> ResourceDelta {
    ResourceDelta {
        credits: (-config.subsystems.train_cost_credits) as i64,
        energy: 0,
        minerals: 0,
        food: 0,
        influence: 0,
    }
}

/// Train a new cohort on module `id`, anytime: pay the fee, raise the
/// module's knowledge by the training gain (never past one), and log a
/// pooled line naming the module. Refused, changing nothing, for an unknown
/// module or an unaffordable fee.
pub fn train_subsystem_knowledge(sim: &mut SimState, data: &GameData, id: &str) -> (res: Result<(), String>)
    requires
        old(sim).wf(),
        data.config.wf(),
    ensures
        res is Ok <==> def_of(*data, id@) is Some && old(sim).resources.affords(training_bill(data.config)),
        res is Err ==> *final(sim) == *old(sim),
        res matches Err(e) ==> e@ == (if def_of(*data, id@) is None {
            "Unknown subsystem."@
        } else {
            "Training a new cohort needs "@ + signed_decimal(data.config.subsystems.train_cost_credits as int)
                + " credits."@
        }),
        res is Ok ==> {
            let d = def_of(*data, id@).unwrap();
            &&& final(sim).resources == old(sim).resources.applied(training_bill(data.config))
            &&& final(sim).subsystems@ == (match first(sub_keys(old(sim).subsystems@), id@) {
                Some(i) => old(sim).subsystems@.update(
                    i,
                    SubsystemState {
                        knowledge: (if old(sim).subsystems@[i].knowledge + data.config.subsystems.train_knowledge_gain < ONE {
                            old(sim).subsystems@[i].knowledge + data.config.subsystems.train_knowledge_gain
                        } else {
                            ONE as int
                        }) as i64,
                        ..old(sim).subsystems@[i]
                    },
                ),
                None => old(sim).subsystems@,
            })
            &&& final(sim).log@.len() == old(sim).log@.len() + 1
            &&& final(sim).log@.last().text@ == (match pooled_line(
                data.config.flavor.subsystem_training@,
                old(sim).month_clock as nat,
                d.name@,
            ) {
                Some(l) => l,
                None => "A new cohort trains up on the "@ + d.name@ + "."@,
            })
            &&& final(sim).wf()
            &&& *final(sim) == (SimState {
                resources: final(sim).resources,
                subsystems: final(sim).subsystems,
                log: final(sim).log,
                ..*old(sim)
            })
        },
{
    proof {
        reveal_strlit("A new cohort trains up on the ");
        reveal_strlit(".");
    }
    let di = match def_index(&data.subsystems, id) {
        Some(i) => i,
        None => return Err(String::from_str("Unknown subsystem.")),
    };
    let def = &data.subsystems[di];
    let cfg = &data.config.subsystems;
    let cost = ResourceDelta {
        credits: -cfg.train_cost_credits,
        energy: 0,
        minerals: 0,
        food: 0,
        influence: 0,
    };
    if !sim.resources.can_afford(&cost) {
        let shown = signed_decimal_text(cfg.train_cost_credits);
        return Err(join3("Training a new cohort needs ", shown.as_str(), " credits."));
    }
    sim.resources.apply(&cost);
    match sim.subsystem_index(id) {
        Some(i) => {
            let k = sim.subsystems[i].knowledge;
            sim.subsystems[i].knowledge = if k + cfg.train_knowledge_gain < ONE {
                k + cfg.train_knowledge_gain
            } else {
                ONE
            };
        },
        None => {},
    }
    let line = match line_with_name(
        &data.config.flavor.subsystem_training,
        sim.month_clock as usize,
        def.name.as_str(),
    ) {
        Some(l) => l,
        None => join3("A new cohort trains up on the ", def.name.as_str(), "."),
    };
    sim.push_log(line);
    Ok(())
}

/// The condition of module `id`, or `absent` when the ship has none.
pub open spec fn condition_or(sim: SimState, id: Seq<char>, absent: int) -> int {
    match state_of(sim, id) {
        Some(s) => s.condition as int,
        None => absent,
    }
}

/// See [`condition_or`].
pub fn condition_of(sim: &SimState, id: &str, absent: i64) -> (r: i64)
    requires
        sim.wf(),
        0 <= absent <= ONE,
    ensures
        r == condition_or(*sim, id@, absent as int),
        0 <= r <= ONE,
{
    match sim.subsystem_index(id) {
        Some(i) => sim.subsystems[i].condition,
        None => absent,
    }
}

/// `1 - penalty × (1 - x)`, floored at zero: how a fall below full
/// condition slows something that leans on a module.
pub open spec fn worn_factor(penalty: int, x: int) -> int {
    let r = ONE - scale(penalty, ONE - x);
    if r < 0 {
        0
    } else {
        r
    }
}

fn worn(penalty: i64, x: i64) -> (r: i64)
    requires
        0 <= penalty <= ONE,
        0 <= x <= ONE,
    ensures
        r == worn_factor(penalty as int, x as int),
        0 <= r <= ONE,
{
    let w = mul_frac(penalty, ONE - x);
    if ONE - w < 0 {
        0
    } else {
        ONE - w
    }
}

/// The generational change in every module's knowledge: it dies with the
/// people, and the education module carries it forward by tier, less as its
/// archive crumbles.
pub open spec fn knowledge_shift(sim: SimState, config: GameConfig) -> int {
    let cfg = config.subsystems;
    let edu = state_of(sim, "education_culture"@);
    let tier = match edu {
        Some(e) => e.tier as int,
        None => 0,
    };
    let cond = match edu {
        Some(e) => e.condition as int,
        None => ONE as int,
    };
    let tf = worn_factor(cfg.education_transmission_condition_penalty as int, cond);
    -cfg.knowledge_decay_per_generation + crate::fixed::tdiv(
        tier * cfg.education_transmission_per_tier * tf,
        ONE as int,
    )
}

/// One knowledge delta per catalog module, in catalog order.
pub open spec fn knowledge_deltas(ds: Seq<SubsystemDef>, shift: int) -> Seq<crate::data::SubsystemDelta> {
    Seq::new(ds.len(), |i: int| crate::data::SubsystemDelta { id: ds[i].id, condition: 0, knowledge: shift as i64 })
}

/// Generation-boundary knowledge change: every catalog module's knowledge
/// moves by [`knowledge_shift`], kept in 0-1.
pub fn transmit_knowledge(sim: &mut SimState, data: &GameData)
    requires
        old(sim).wf(),
        data.config.wf(),
    ensures
        final(sim).subsystems@ == crate::effects::subs_after(
            old(sim).subsystems@,
            knowledge_deltas(data.subsystems@, knowledge_shift(*old(sim), data.config)),
        ),
        final(sim).wf(),
        *final(sim) == (SimState { subsystems: final(sim).subsystems, ..*old(sim) }),
{
    proof {
        reveal_strlit("education_culture");
    }
    let cfg = &data.config.subsystems;
    let ei = sim.subsystem_index("education_culture");
    let tier: u32 = match ei {
        Some(i) => sim.subsystems[i].tier,
        None => 0,
    };
    let cond: i64 = match ei {
        Some(i) => sim.subsystems[i].condition,
        None => ONE,
    };
    let tf = worn(cfg.education_transmission_condition_penalty, cond);
    proof {
        let t = tier as int;
        let p = cfg.education_transmission_per_tier as int;
        let f = tf as int;
        assert(0 <= t * p <= 0x1_0000_0000 * ONE) by (nonlinear_arith)
            requires
                0 <= t <= 0x1_0000_0000,
                0 <= p <= ONE,
        ;
        assert(0 <= t * p * f <= 0x1_0000_0000 * ONE * ONE) by (nonlinear_arith)
            requires
                0 <= t * p <= 0x1_0000_0000 * ONE,
                0 <= f <= ONE,
        ;
        let a = t * p * f;
        assert(a / (ONE as int) <= 0x1_0000_0000 * ONE) by (nonlinear_arith)
            requires
                0 <= a <= 0x1_0000_0000 * ONE * ONE,
        ;
    }
    let carried = crate::fixed::tdiv_i128((tier as i128) * (cfg.education_transmission_per_tier as i128) * (tf as i128), ONE as i128);
    let delta: i64 = (carried as i64) - cfg.knowledge_decay_per_generation;
    let ghost want = knowledge_deltas(data.subsystems@, knowledge_shift(*old(sim), data.config));
    assert(delta == knowledge_shift(*old(sim), data.config));
    let ds = &data.subsystems;
    let mut k: usize = 0;
    while k < ds.len()
        invariant
            k <= ds.len(),
            ds@ == data.subsystems@,
            want == knowledge_deltas(ds@, delta as int),
            sim.subsystems@ == crate::effects::subs_after(old(sim).subsystems@, want.subrange(0, k as int)),
            sim.wf(),
            *sim == (SimState { subsystems: sim.subsystems, ..*old(sim) }),
        decreases ds.len() - k,
    {
        proof {
            assert(want.subrange(0, k + 1).drop_last() =~= want.subrange(0, k as int));
            crate::keys::lemma_first_from(sub_keys(sim.subsystems@), ds@[k as int].id@, 0);
        }
        match sim.subsystem_index(ds[k].id.as_str()) {
            Some(i) => {
                let kn = add_unit(sim.subsystems[i].knowledge, delta);
                sim.subsystems[i].knowledge = kn;
                proof {
                    let c = sim.subsystems@[i as int].condition;
                    assert(unit(c + 0) == c);
                }
            },
            None => {},
        }
        proof {
            assert(sim.subsystems@ =~= crate::effects::subs_after(old(sim).subsystems@, want.subrange(0, (k + 1) as int)));
        }
        k = k + 1;
    }
    proof {
        assert(want.subrange(0, ds.len() as int) =~= want);
    }
}

/// Crew lost this year to a life-support plant that cannot sustain everyone.
/// The plant needs repair and power: its effective condition is the worse of
/// its physical state and the grid's power, plus what a living garden
/// scrubs (capped at one). At or above the failure threshold no one dies;
/// below it the year's toll rises from nothing at the threshold to the full
/// mortality fraction at zero, rounded down.
pub open spec fn life_support_loss(sim: SimState, config: GameConfig) -> int {
    let cfg = config.subsystems;
    let threshold = cfg.life_support_failure_threshold as int;
    if threshold <= 0 || cfg.life_support_failure_mortality <= 0 {
        0
    } else {
        let plant = condition_or(sim, "life_support_habitat"@, ONE as int);
        let power = if cfg.life_support_energy_critical <= 0 {
            ONE as int
        } else {
            clamp(
                (sim.resources.energy * ONE) / (cfg.life_support_energy_critical as int),
                0,
                ONE as int,
            )
        };
        let bio = scale(
            cfg.agriculture_life_support_contribution as int,
            condition_or(sim, "agriculture"@, ONE as int),
        );
        let base = if plant < power {
            plant
        } else {
            power
        };
        let condition = if base + bio < ONE {
            base + bio
        } else {
            ONE as int
        };
        if condition >= threshold {
            0
        } else {
            let severity = clamp(((threshold - condition) * ONE) / threshold, 0, ONE as int);
            let fraction = scale(cfg.life_support_failure_mortality as int, severity);
            (sim.population.count * fraction) / (ONE as int)
        }
    }
}

/// See [`life_support_loss`].
pub fn life_support_mortality_loss(sim: &SimState, data: &GameData) -> (loss: u32)
    requires
        sim.wf(),
        data.config.wf(),
    ensures
        loss == life_support_loss(*sim, data.config),
        loss <= sim.population.count,
{
    proof {
        reveal_strlit("life_support_habitat");
        reveal_strlit("agriculture");
    }
    let cfg = &data.config.subsystems;
    let threshold = cfg.life_support_failure_threshold;
    if threshold <= 0 || cfg.life_support_failure_mortality <= 0 {
        return 0;
    }
    let plant = condition_of(sim, "life_support_habitat", ONE);
    let power: i64 = if cfg.life_support_energy_critical <= 0 {
        ONE
    } else {
        let q = crate::fixed::fdiv_i128(
            crate::fixed::mul_wide(sim.resources.energy, ONE),
            cfg.life_support_energy_critical as i128,
        );
        proof {
            let e = sim.resources.energy as int;
            let c = cfg.life_support_energy_critical as int;
            if e >= 0 {
                assert((e * ONE) / c == crate::fixed::fdiv(e * ONE, c)) by {
                    assert(e * ONE >= 0) by (nonlinear_arith)
                        requires
                            e >= 0,
                    ;
                }
            } else {
                assert(e * ONE < 0) by (nonlinear_arith)
                    requires
                        e < 0,
                ;
                assert((e * ONE) / c < 0) by (nonlinear_arith)
                    requires
                        e * ONE < 0,
                        c > 0,
                ;
                assert(crate::fixed::fdiv(e * ONE, c) < 0) by (nonlinear_arith)
                    requires
                        e * ONE < 0,
                        c > 0,
                ;
            }
        }
        crate::fixed::clamp_i128(q, 0, ONE)
    };
    let agri = condition_of(sim, "agriculture", ONE);
    let bio = mul_frac(cfg.agriculture_life_support_contribution, agri);
    let base = if plant < power {
        plant
    } else {
        power
    };
    let condition = if base + bio < ONE {
        base + bio
    } else {
        ONE
    };
    if condition >= threshold {
        return 0;
    }
    proof {
        let t = threshold as int;
        let c = condition as int;
        assert(0 <= ((t - c) * ONE) / t <= ONE) by (nonlinear_arith)
            requires
                0 <= c < t,
        ;
    }
    let severity = (((threshold - condition) as i128) * (ONE as i128) / (threshold as i128)) as i64;
    let fraction = mul_frac(cfg.life_support_failure_mortality, severity);
    proof {
        let n = sim.population.count as int;
        let f = fraction as int;
        assert(0 <= n * f <= n * ONE) by (nonlinear_arith)
            requires
                0 <= n,
                0 <= f <= ONE,
        ;
        assert((n * f) / (ONE as int) <= n) by (nonlinear_arith)
            requires
                0 <= n * f <= n * ONE,
        ;
    }
    ((sim.population.count as i128) * (fraction as i128) / (ONE as i128)) as u32
}

/// Extra food-production fraction from the agriculture module: tier × bonus.
pub fn agriculture_food_bonus(sim: &SimState, data: &GameData) -> (r: i64)
    requires
        data.config.wf(),
    ensures
        r == (match state_of(*sim, "agriculture"@) {
            Some(s) => s.tier as int,
            None => 0,
        }) * data.config.subsystems.agriculture_food_bonus_per_tier,
{
    proof {
        reveal_strlit("agriculture");
    }
    let tier: u32 = match sim.subsystem_index("agriculture") {
        Some(i) => sim.subsystems[i].tier,
        None => 0,
    };
    proof {
        let t = tier as int;
        let p = data.config.subsystems.agriculture_food_bonus_per_tier as int;
        assert(0 <= t * p <= 0x1_0000_0000 * ONE) by (nonlinear_arith)
            requires
                0 <= t <= 0x1_0000_0000,
                0 <= p <= ONE,
        ;
    }
    (tier as i64) * data.config.subsystems.agriculture_food_bonus_per_tier
}

/// Food-yield multiplier from the agriculture module's condition:
/// `1 - penalty × (1 - condition)`, floored at zero; one with no penalty or
/// no module.
pub fn agriculture_condition_food_factor(sim: &SimState, data: &GameData) -> (r: i64)
    requires
        sim.wf(),
        data.config.wf(),
    ensures
        r == (if data.config.subsystems.agriculture_condition_food_penalty == 0 {
            ONE as int
        } else {
            worn_factor(
                data.config.subsystems.agriculture_condition_food_penalty as int,
                condition_or(*sim, "agriculture"@, ONE as int),
            )
        }),
        0 <= r <= ONE,
{
    proof {
        reveal_strlit("agriculture");
    }
    let penalty = data.config.subsystems.agriculture_condition_food_penalty;
    if penalty == 0 {
        return ONE;
    }
    let condition = condition_of(sim, "agriculture", ONE);
    worn(penalty, condition)
}

/// How much the life-support module slows life-support decay: its tier's
/// severity reduction scaled by condition (none without the module).
pub fn life_support_decay_reduction(sim: &SimState, data: &GameData) -> (r: i64)
    requires
        sim.wf(),
        defs_ok(data.subsystems@),
    ensures
        r == (match (def_of(*data, "life_support_habitat"@), state_of(*sim, "life_support_habitat"@)) {
            (Some(d), Some(s)) => severity(d, s),
            _ => 0,
        }),
        0 <= r <= ONE,
{
    proof {
        reveal_strlit("life_support_habitat");
    }
    let di = match def_index(&data.subsystems, "life_support_habitat") {
        Some(i) => i,
        None => return 0,
    };
    let si = match sim.subsystem_index("life_support_habitat") {
        Some(i) => i,
        None => return 0,
    };
    proof {
        assert(def_ok(data.subsystems@[di as int]));
        assert(0 <= sim.subsystems@[si as int].condition <= ONE);
    }
    effective_severity(&data.subsystems[di], &sim.subsystems[si])
}

/// Fraction of famine losses the medical module prevents: condition × relief.
pub fn medical_famine_relief(sim: &SimState, data: &GameData) -> (r: i64)
    requires
        sim.wf(),
        data.config.wf(),
    ensures
        r == scale(condition_or(*sim, "medical_bay"@, 0), data.config.subsystems.medical_famine_relief_per_condition as int),
        0 <= r <= ONE,
{
    proof {
        reveal_strlit("medical_bay");
    }
    let condition = condition_of(sim, "medical_bay", 0);
    mul_frac(condition, data.config.subsystems.medical_famine_relief_per_condition)
}

/// Yearly unity recovery from the security module: condition × rate, only
/// for a ship below the crew's recovery ceiling.
pub fn security_unity_recovery(sim: &SimState, data: &GameData) -> (r: i64)
    requires
        sim.wf(),
        data.config.wf(),
    ensures
        r == (if sim.population.unity >= data.config.crew.unity_recovery_ceiling {
            0
        } else {
            scale(condition_or(*sim, "security"@, 0), data.config.subsystems.security_unity_recovery_per_condition as int)
        }),
        0 <= r <= ONE,
{
    proof {
        reveal_strlit("security");
    }
    if sim.population.unity >= data.config.crew.unity_recovery_ceiling {
        return 0;
    }
    let condition = condition_of(sim, "security", 0);
    mul_frac(condition, data.config.subsystems.security_unity_recovery_per_condition)
}

/// Yearly stability recovery from the security module: condition × rate,
/// only for a ship below the stability ceiling (none when the rate is off).
pub fn security_stability_recovery(sim: &SimState, data: &GameData) -> (r: i64)
    requires
        sim.wf(),
        data.config.wf(),
    ensures
        r == (if data.config.subsystems.security_stability_recovery_per_condition <= 0
            || sim.population.stability >= data.config.subsystems.security_stability_recovery_ceiling {
            0
        } else {
            scale(condition_or(*sim, "security"@, 0), data.config.subsystems.security_stability_recovery_per_condition as int)
        }),
        0 <= r <= ONE,
{
    proof {
        reveal_strlit("security");
    }
    let cfg = &data.config.subsystems;
    if cfg.security_stability_recovery_per_condition <= 0
        || sim.population.stability >= cfg.security_stability_recovery_ceiling {
        return 0;
    }
    let condition = condition_of(sim, "security", 0);
    mul_frac(condition, cfg.security_stability_recovery_per_condition)
}

/// The signed yearly morale shift from the habitat: `swing × (condition - ½)`;
/// none with no swing or no module.
pub fn habitat_morale_effect(sim: &SimState, data: &GameData) -> (r: i64)
    requires
        sim.wf(),
        data.config.wf(),
    ensures
        r == (if data.config.subsystems.habitat_morale_swing == 0 {
            0
        } else {
            match state_of(*sim, "life_support_habitat"@) {
                Some(s) => scale(data.config.subsystems.habitat_morale_swing as int, s.condition - ONE / 2),
                None => 0,
            }
        }),
{
    proof {
        reveal_strlit("life_support_habitat");
    }
    let swing = data.config.subsystems.habitat_morale_swing;
    if swing == 0 {
        return 0;
    }
    match sim.subsystem_index("life_support_habitat") {
        Some(i) => crate::fixed::fmul(swing, sim.subsystems[i].condition - ONE / 2),
        None => 0,
    }
}

} // verus!

verus! {

/// Half a unit: the neutral point of a condition or a mood.
pub open spec fn half() -> int {
    ONE / 2
}

/// The keystone multiplier on every other module's decay: a sound
/// engineering bay holds the ship together, a failing one lets it rot
/// (`1 + swing × (½ − condition)`, floored at zero; half condition without a bay).
pub open spec fn keystone(sim: SimState, config: GameConfig) -> int {
    let v = ONE + scale(
        config.subsystems.engineering_decay_swing as int,
        half() - condition_or(sim, "engineering_bay"@, half()),
    );
    if v >= 0 {
        v
    } else {
        0
    }
}

/// The first aboard people, from `start`, whose catalog entry tends module `id`.
pub open spec fn tender_from(
    fs: Seq<crate::state::FactionState>,
    data: GameData,
    id: Seq<char>,
    start: int,
) -> Option<int>
    decreases fs.len() - start,
{
    if start < 0 || start >= fs.len() {
        None
    } else if fs[start].aboard() && (crate::factions::faction_def(data, fs[start].faction_id@) matches Some(
        d,
    ) && d.tends@ == id) {
        Some(start)
    } else {
        tender_from(fs, data, id, start + 1)
    }
}

/// The approval of the people tending module `id`, if one rides aboard.
pub open spec fn tender_approval(sim: SimState, data: GameData, id: Seq<char>) -> Option<i64> {
    match tender_from(sim.factions@, data, id, 0) {
        Some(i) => Some(sim.factions@[i].approval),
        None => None,
    }
}

/// The decay multiplier of module `d`: the keystone (the engineering bay
/// itself excepted), bent by its tenders' mood (`1 + scale × (½ − approval)`,
/// floored at zero).
pub open spec fn decay_mult(sim: SimState, data: GameData, d: SubsystemDef) -> int {
    let m0 = if d.id@ == "engineering_bay"@ {
        ONE as int
    } else {
        keystone(sim, data.config)
    };
    let ts = data.config.subsystems.tender_approval_decay_scale;
    if ts != 0 {
        match tender_approval(sim, data, d.id@) {
            Some(a) => {
                let f = ONE + scale(ts as int, half() - a);
                scale(m0, if f >= 0 {
                    f
                } else {
                    0
                })
            },
            None => m0,
        }
    } else {
        m0
    }
}

/// One condition loss per catalog module, in catalog order: its yearly decay
/// times its multiplier, times the year's wear.
pub open spec fn decay_deltas(sim: SimState, data: GameData, wear: int) -> Seq<crate::data::SubsystemDelta> {
    Seq::new(
        data.subsystems@.len(),
        |i: int|
            crate::data::SubsystemDelta {
                id: data.subsystems@[i].id,
                condition: (-scale(
                    scale(data.subsystems@[i].decay_per_year as int, decay_mult(sim, data, data.subsystems@[i])),
                    wear,
                )) as i64,
                knowledge: 0,
            },
    )
}

fn tender_approval_of(sim: &SimState, data: &GameData, id: &String) -> (r: Option<i64>)
    ensures
        r == tender_approval(*sim, *data, id@),
{
    let mut i: usize = 0;
    while i < sim.factions.len()
        invariant
            i <= sim.factions.len(),
            tender_from(sim.factions@, *data, id@, 0) == tender_from(sim.factions@, *data, id@, i as int),
        decreases sim.factions.len() - i,
    {
        if sim.factions[i].is_aboard() {
            match crate::factions::faction_def_index(data, sim.factions[i].faction_id.as_str()) {
                Some(d) => {
                    if same(&data.factions[d].tends, id) {
                        assert(tender_from(sim.factions@, *data, id@, i as int) == Some(i as int));
                        return Some(sim.factions[i].approval);
                    }
                },
                None => {},
            }
        }
        i = i + 1;
    }
    None
}

proof fn lemma_tender_from(fs: Seq<crate::state::FactionState>, data: GameData, id: Seq<char>, start: int)
    requires
        0 <= start,
    ensures
        tender_from(fs, data, id, start) matches Some(i) ==> start <= i < fs.len(),
    decreases fs.len() - start,
{
    if start < fs.len() && !(fs[start].aboard() && (crate::factions::faction_def(data, fs[start].faction_id@) matches Some(
        d,
    ) && d.tends@ == id)) {
        lemma_tender_from(fs, data, id, start + 1);
    }
}

/// A year's wear on every module: each catalog module's condition falls by
/// its decay multiplied as [`decay_mult`] says and by `wear` (the year's
/// wear factor), floored at zero.
pub fn decay_subsystems(sim: &mut SimState, data: &GameData, wear: i64)
    requires
        old(sim).wf(),
        data.config.wf(),
        defs_ok(data.subsystems@),
        0 <= wear <= BOUND,
    ensures
        final(sim).subsystems@ == crate::effects::subs_after(
            old(sim).subsystems@,
            decay_deltas(*old(sim), *data, wear as int),
        ),
        final(sim).wf(),
        *final(sim) == (SimState { subsystems: final(sim).subsystems, ..*old(sim) }),
{
    let cfg = &data.config.subsystems;
    let eng = condition_of(sim, "engineering_bay", ONE / 2);
    let k0 = ONE + mul_frac(ONE / 2 - eng, cfg.engineering_decay_swing);
    proof {
        crate::fixed::lemma_scale_swap(cfg.engineering_decay_swing as int, (ONE / 2 - eng) as int);
    }
    let keystone_mult: i64 = if k0 >= 0 {
        k0
    } else {
        0
    };
    assert(keystone_mult == keystone(*old(sim), data.config));
    let eng_id = "engineering_bay".to_owned();
    let ghost s0 = *sim;
    let ghost want = decay_deltas(s0, *data, wear as int);
    let ds = &data.subsystems;
    let mut k: usize = 0;
    while k < ds.len()
        invariant
            k <= ds.len(),
            ds@ == data.subsystems@,
            data.config.wf(),
            defs_ok(data.subsystems@),
            0 <= wear <= BOUND,
            keystone_mult == keystone(s0, data.config),
            eng_id@ == "engineering_bay"@,
            0 <= keystone_mult <= 2 * ONE,
            want == decay_deltas(s0, *data, wear as int),
            sim.subsystems@ == crate::effects::subs_after(s0.subsystems@, want.subrange(0, k as int)),
            sim.wf(),
            *sim == (SimState { subsystems: sim.subsystems, ..s0 }),
        decreases ds.len() - k,
    {
        let def = &ds[k];
        proof {
            assert(want.subrange(0, k + 1).drop_last() =~= want.subrange(0, k as int));
            crate::keys::lemma_first_from(sub_keys(sim.subsystems@), ds@[k as int].id@, 0);
            assert(def_ok(ds@[k as int]));
        }
        let m0: i64 = if same(&def.id, &eng_id) {
            ONE
        } else {
            keystone_mult
        };
        let mut mult = m0;
        if data.config.subsystems.tender_approval_decay_scale != 0 {
            match tender_approval_of(sim, data, &def.id) {
                Some(a) => {
                    proof {
                        lemma_tender_from(sim.factions@, *data, def.id@, 0);
                        crate::fixed::lemma_scale_swap(
                            data.config.subsystems.tender_approval_decay_scale as int,
                            (ONE / 2 - a) as int,
                        );
                        let ti = tender_from(sim.factions@, *data, def.id@, 0).unwrap();
                        assert(0 <= sim.factions@[ti].approval <= ONE);
                    }
                    let f0 = ONE + mul_frac(ONE / 2 - a, data.config.subsystems.tender_approval_decay_scale);
                    let f: i64 = if f0 >= 0 {
                        f0
                    } else {
                        0
                    };
                    mult = fmul(m0, f);
                    proof {
                        let x = m0 as int;
                        let y = f as int;
                        assert(0 <= (x * y) / (ONE as int) <= 4 * ONE) by (nonlinear_arith)
                            requires
                                0 <= x <= 2 * ONE,
                                0 <= y <= 2 * ONE,
                        ;
                        assert(x * y >= 0) by (nonlinear_arith)
                            requires
                                0 <= x,
                                0 <= y,
                        ;
                    }
                },
                None => {},
            }
        }
        assert(mult == decay_mult(s0, *data, *def));
        assert(0 <= mult <= 4 * ONE);
        let decay = fmul(def.decay_per_year, mult);
        proof {
            let x = def.decay_per_year as int;
            let y = mult as int;
            assert(0 <= (x * y) / (ONE as int) <= 4 * ONE) by (nonlinear_arith)
                requires
                    0 <= x <= ONE,
                    0 <= y <= 4 * ONE,
            ;
            assert(x * y >= 0) by (nonlinear_arith)
                requires
                    0 <= x,
                    0 <= y,
            ;
        }
        let loss = fmul(decay, wear);
        proof {
            let x = decay as int;
            let y = wear as int;
            assert(0 <= (x * y) / (ONE as int) <= 4 * BOUND) by (nonlinear_arith)
                requires
                    0 <= x <= 4 * ONE,
                    0 <= y <= BOUND,
            ;
            assert(x * y >= 0) by (nonlinear_arith)
                requires
                    0 <= x,
                    0 <= y,
            ;
            assert(want[k as int].condition == -loss);
        }
        match sim.subsystem_index(def.id.as_str()) {
            Some(i) => {
                let c = add_unit(sim.subsystems[i].condition, -loss);
                sim.subsystems[i].condition = c;
                proof {
                    let kn = sim.subsystems@[i as int].knowledge;
                    assert(unit(kn + 0) == kn);
                }
            },
            None => {},
        }
        proof {
            assert(sim.subsystems@ =~= crate::effects::subs_after(s0.subsystems@, want.subrange(0, (k + 1) as int)));
        }
        k = k + 1;
    }
    proof {
        assert(want.subrange(0, ds.len() as int) =~= want);
    }
}

} // verus!
