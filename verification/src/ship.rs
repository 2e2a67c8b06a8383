//! Ship repairs and the installed loadout's yearly effects.

use vstd::prelude::*;

use crate::config::GameConfig;
use crate::data::{ComponentKind, ComponentStats, GameData, ShipComponent};
use crate::deltas::ResourceDelta;
use crate::fixed::{fdiv, fdiv_i128, mul_wide, ONE};
use crate::state::{ShipState, SimState};
use crate::util::{join2, same};

verus! {

/// Which ship system a repair verb targets.
#[derive(Debug, Clone, Copy, PartialEq, Eq, Structural)]
pub enum RepairKind {
    Hull,
    LifeSupport,
}

/// A repaired system's display name.
pub open spec fn repair_label(kind: RepairKind) -> Seq<char> {
    match kind {
        RepairKind::Hull => "Hull"@,
        RepairKind::LifeSupport => "Life support"@,
    }
}

impl RepairKind {
    /// The system's display name (see [`repair_label`]).
    pub fn label(self) -> (s: &'static str)
        ensures
            s@ == repair_label(self),
    {
        match self {
            RepairKind::Hull => "Hull",
            RepairKind::LifeSupport => "Life support",
        }
    }
}

/// The level of the system a repair targets.
pub open spec fn repair_target(ship: ShipState, kind: RepairKind) -> i64 {
    match kind {
        RepairKind::Hull => ship.hull_integrity,
        RepairKind::LifeSupport => ship.life_support,
    }
}

/// The ship with the targeted system set to `v`.
pub open spec fn with_target(ship: ShipState, kind: RepairKind, v: i64) -> ShipState {
    match kind {
        RepairKind::Hull => ShipState { hull_integrity: v, ..ship },
        RepairKind::LifeSupport => ShipState { life_support: v, ..ship },
    }
}

/// The minerals a field repair spends.
pub open spec fn field_cost(config: GameConfig) -> ResourceDelta {
    ResourceDelta {
        credits: 0,
        energy: 0,
        minerals: (-config.repair.field_minerals_cost) as i64,
        food: 0,
        influence: 0,
    }
}

/// Whether a field repair of `kind` goes ahead.
pub open spec fn field_repair_allowed(sim: SimState, config: GameConfig, kind: RepairKind) -> bool {
    &&& repair_target(sim.ship, kind) < config.repair.field_ceiling
    &&& sim.ship.spare_parts >= config.repair.field_parts_cost
    &&& sim.resources.affords(field_cost(config))
}

/// What a field repair of `kind` does (see [`field_repair`]).
pub open spec fn field_repaired(s0: SimState, config: GameConfig, kind: RepairKind, s1: SimState, res: Result<(), String>) -> bool {
    &&& (res is Ok <==> field_repair_allowed(s0, config, kind))
    &&& (res is Err ==> s1 == s0)
    &&& (res matches Err(e) ==> e@ == (if repair_target(s0.ship, kind) >= config.repair.field_ceiling {
        "Field repairs won't hold past a point — that needs a drydock."@
    } else if s0.ship.spare_parts < config.repair.field_parts_cost {
        "Not enough spare parts for a field repair."@
    } else {
        "Not enough minerals for a field repair."@
    }))
    &&& (res is Ok ==> {
        let target = repair_target(s0.ship, kind);
        let raised = if target + config.repair.field_gain < config.repair.field_ceiling {
            target + config.repair.field_gain
        } else {
            config.repair.field_ceiling as int
        };
        &&& s1.resources == s0.resources.applied(field_cost(config))
        &&& s1.ship == with_target(
            ShipState {
                spare_parts: (s0.ship.spare_parts - config.repair.field_parts_cost) as i32,
                ..s0.ship
            },
            kind,
            raised as i64,
        )
        &&& s1.log@ == s0.log@.push(s1.log@.last())
        &&& s1.log@.last().text@ == repair_label(kind) + " patched in the field — it will hold, for now."@
        &&& s1 == (SimState {
            resources: s1.resources,
            ship: s1.ship,
            log: s1.log,
            ..s0
        })
    })
}

/// Field repair, underway: patch a system from carried spare parts and
/// minerals by `field_gain`, but never past `field_ceiling` (a ship is made
/// whole only in drydock). Refused, changing nothing, when the system is
/// already at the ceiling or the parts or minerals are short.
pub fn field_repair(sim: &mut SimState, config: &GameConfig, kind: RepairKind) -> (res: Result<
    (),
    String,
>)
    requires
        old(sim).wf(),
        config.wf(),
    ensures
        field_repaired(*old(sim), *config, kind, *final(sim), res),
        final(sim).wf(),
{
    let cfg = &config.repair;
    let current = match kind {
        RepairKind::Hull => sim.ship.hull_integrity,
        RepairKind::LifeSupport => sim.ship.life_support,
    };
    if current >= cfg.field_ceiling {
        return Err(String::from_str("Field repairs won't hold past a point — that needs a drydock."));
    }
    if sim.ship.spare_parts < cfg.field_parts_cost {
        return Err(String::from_str("Not enough spare parts for a field repair."));
    }
    let minerals = ResourceDelta {
        credits: 0,
        energy: 0,
        minerals: -cfg.field_minerals_cost,
        food: 0,
        influence: 0,
    };
    if !sim.resources.can_afford(&minerals) {
        return Err(String::from_str("Not enough minerals for a field repair."));
    }
    sim.resources.apply(&minerals);
    sim.ship.spare_parts = sim.ship.spare_parts - cfg.field_parts_cost;
    let raised = if current + cfg.field_gain < cfg.field_ceiling {
        current + cfg.field_gain
    } else {
        cfg.field_ceiling
    };
    match kind {
        RepairKind::Hull => sim.ship.hull_integrity = raised,
        RepairKind::LifeSupport => sim.ship.life_support = raised,
    }
    let line = join2(kind.label(), " patched in the field — it will hold, for now.");
    sim.push_log(line);
    Ok(())
}

/// What a full refit costs.
pub open spec fn full_cost(config: GameConfig) -> ResourceDelta {
    ResourceDelta {
        credits: (-config.repair.full_credits_cost) as i64,
        energy: 0,
        minerals: (-config.repair.full_minerals_cost) as i64,
        food: 0,
        influence: 0,
    }
}

/// Full refit, in port only: restore hull, life support, and fuel to whole
/// and top the spare parts back up, for credits and minerals. Refused,
/// changing nothing, underway or when the treasury cannot cover it.
pub fn full_repair(sim: &mut SimState, config: &GameConfig) -> (res: Result<(), String>)
    requires
        old(sim).wf(),
        config.wf(),
    ensures
        res is Ok <==> old(sim).contract is None && old(sim).resources.affords(full_cost(*config)),
        res is Err ==> *final(sim) == *old(sim),
        res matches Err(e) ==> e@ == (if old(sim).contract is Some {
            "A full refit can only be done in port, between missions."@
        } else {
            "The treasury cannot cover a full refit."@
        }),
        res is Ok ==> {
            &&& final(sim).resources == old(sim).resources.applied(full_cost(*config))
            &&& final(sim).ship == (ShipState {
                hull_integrity: ONE,
                life_support: ONE,
                fuel: ONE,
                spare_parts: if old(sim).ship.spare_parts < config.repair.full_parts_restock {
                    config.repair.full_parts_restock
                } else {
                    old(sim).ship.spare_parts
                },
                ..old(sim).ship
            })
            &&& final(sim).log@ == old(sim).log@.push(final(sim).log@.last())
            &&& final(sim).log@.last().text@ == "Full refit complete in drydock — the ship is whole again."@
            &&& *final(sim) == (SimState {
                resources: final(sim).resources,
                ship: final(sim).ship,
                log: final(sim).log,
                ..*old(sim)
            })
        },
        final(sim).wf(),
{
    if sim.contract.is_some() {
        return Err(String::from_str("A full refit can only be done in port, between missions."));
    }
    let cfg = &config.repair;
    let cost = ResourceDelta {
        credits: -cfg.full_credits_cost,
        energy: 0,
        minerals: -cfg.full_minerals_cost,
        food: 0,
        influence: 0,
    };
    if !sim.resources.can_afford(&cost) {
        return Err(String::from_str("The treasury cannot cover a full refit."));
    }
    sim.resources.apply(&cost);
    sim.ship.hull_integrity = ONE;
    sim.ship.life_support = ONE;
    sim.ship.fuel = ONE;
    if sim.ship.spare_parts < cfg.full_parts_restock {
        sim.ship.spare_parts = cfg.full_parts_restock;
    }
    sim.push_log(String::from_str("Full refit complete in drydock — the ship is whole again."));
    Ok(())
}

/// Stats are small enough to add up safely.
pub open spec fn stats_ok(s: ComponentStats) -> bool {
    &&& -0x10_0000 <= s.cargo <= 0x10_0000
    &&& -0x10_0000 <= s.crew_capacity <= 0x10_0000
    &&& -0x10_0000 <= s.speed <= 0x10_0000
    &&& -0x10_0000 <= s.combat <= 0x10_0000
    &&& -0x10_0000 <= s.fuel_regen <= 0x10_0000
}

/// Every catalog component's stats are in range.
pub open spec fn components_ok(cs: Seq<ShipComponent>) -> bool {
    forall|i: int| 0 <= i < cs.len() ==> stats_ok(#[trigger] cs[i].stats)
}

/// The first catalog component of `kind` named `id`, from `start`.
pub open spec fn component_from(cs: Seq<ShipComponent>, kind: ComponentKind, id: Seq<char>, start: int) -> Option<
    int,
>
    decreases cs.len() - start,
{
    if start < 0 || start >= cs.len() {
        None
    } else if cs[start].kind == kind && cs[start].id@ == id {
        Some(start)
    } else {
        component_from(cs, kind, id, start + 1)
    }
}

proof fn lemma_component_from(cs: Seq<ShipComponent>, kind: ComponentKind, id: Seq<char>, start: int)
    requires
        0 <= start,
    ensures
        component_from(cs, kind, id, start) matches Some(i) ==> start <= i < cs.len(),
    decreases cs.len() - start,
{
    if start < cs.len() && !(cs[start].kind == kind && cs[start].id@ == id) {
        lemma_component_from(cs, kind, id, start + 1);
    }
}

/// What the installed `id` of `kind` contributes (nothing when not in the catalog).
pub open spec fn stats_of(cs: Seq<ShipComponent>, kind: ComponentKind, id: Option<Seq<char>>) -> ComponentStats {
    let zero = ComponentStats { cargo: 0, crew_capacity: 0, speed: 0, combat: 0, fuel_regen: 0 };
    match id {
        Some(id) => match component_from(cs, kind, id, 0) {
            Some(i) => cs[i].stats,
            None => zero,
        },
        None => zero,
    }
}

/// The field-wise sum of three stat blocks.
pub open spec fn sum3(a: ComponentStats, b: ComponentStats, c: ComponentStats) -> ComponentStats {
    ComponentStats {
        cargo: (a.cargo + b.cargo + c.cargo) as i32,
        crew_capacity: (a.crew_capacity + b.crew_capacity + c.crew_capacity) as i32,
        speed: (a.speed + b.speed + c.speed) as i32,
        combat: (a.combat + b.combat + c.combat) as i32,
        fuel_regen: (a.fuel_regen + b.fuel_regen + c.fuel_regen) as i32,
    }
}

/// The loadout's total: hull, engine, and weapon (if one is installed).
pub open spec fn loadout(ship: ShipState, cs: Seq<ShipComponent>) -> ComponentStats {
    sum3(
        stats_of(cs, ComponentKind::Hull, Some(ship.hull@)),
        stats_of(cs, ComponentKind::Engine, Some(ship.engine@)),
        stats_of(
            cs,
            ComponentKind::Weapon,
            match ship.weapon {
                Some(w) => Some(w@),
                None => None,
            },
        ),
    )
}

fn component_stats(cs: &Vec<ShipComponent>, kind: ComponentKind, id: &String) -> (r: ComponentStats)
    requires
        components_ok(cs@),
    ensures
        r == stats_of(cs@, kind, Some(id@)),
        stats_ok(r),
{
    let mut i: usize = 0;
    while i < cs.len()
        invariant
            i <= cs.len(),
            components_ok(cs@),
            component_from(cs@, kind, id@, 0) == component_from(cs@, kind, id@, i as int),
        decreases cs.len() - i,
    {
        if cs[i].kind == kind && same(&cs[i].id, id) {
            proof {
                assert(stats_ok(cs@[i as int].stats));
            }
            return cs[i].stats;
        }
        i = i + 1;
    }
    ComponentStats { cargo: 0, crew_capacity: 0, speed: 0, combat: 0, fuel_regen: 0 }
}

/// Sum the stats of every installed component.
pub fn loadout_stats(sim: &SimState, data: &GameData) -> (total: ComponentStats)
    requires
        components_ok(data.ship_components@),
    ensures
        total == loadout(sim.ship, data.ship_components@),
        -0x30_0000 <= total.speed <= 0x30_0000,
        -0x30_0000 <= total.cargo <= 0x30_0000,
        -0x30_0000 <= total.combat <= 0x30_0000,
        -0x30_0000 <= total.fuel_regen <= 0x30_0000,
{
    let cs = &data.ship_components;
    let h = component_stats(cs, ComponentKind::Hull, &sim.ship.hull);
    let e = component_stats(cs, ComponentKind::Engine, &sim.ship.engine);
    let w = match &sim.ship.weapon {
        Some(id) => component_stats(cs, ComponentKind::Weapon, id),
        None => ComponentStats { cargo: 0, crew_capacity: 0, speed: 0, combat: 0, fuel_regen: 0 },
    };
    ComponentStats {
        cargo: h.cargo + e.cargo + w.cargo,
        crew_capacity: h.crew_capacity + e.crew_capacity + w.crew_capacity,
        speed: h.speed + e.speed + w.speed,
        combat: h.combat + e.combat + w.combat,
        fuel_regen: h.fuel_regen + e.fuel_regen + w.fuel_regen,
    }
}

/// The yearly production bonus of a loadout: speed pays credits, cargo
/// yields minerals (rounded down).
pub open spec fn loadout_bonus(stats: ComponentStats, config: GameConfig) -> ResourceDelta {
    ResourceDelta {
        credits: (stats.speed * config.ship.credits_per_speed) as i64,
        energy: 0,
        minerals: fdiv(stats.cargo * config.ship.minerals_per_cargo, ONE as int) as i64,
        food: 0,
        influence: 0,
    }
}

/// What the loadout's year does: its production bonus added to the stores,
/// and a scooping engine's regeneration added to the tank (never past full).
pub open spec fn loadout_applied(s0: SimState, data: GameData, s1: SimState) -> bool {
    let stats = loadout(s0.ship, data.ship_components@);
    let regen = stats.fuel_regen * data.config.ship.fuel_regen_per_point;
    &&& s1.resources == s0.resources.applied(loadout_bonus(stats, data.config))
    &&& s1.ship.fuel == (if stats.fuel_regen > 0 {
        if s0.ship.fuel + regen < ONE {
            s0.ship.fuel + regen
        } else {
            ONE as int
        }
    } else {
        s0.ship.fuel as int
    })
    &&& s1 == (SimState { resources: s1.resources, ship: ShipState { fuel: s1.ship.fuel, ..s0.ship }, ..s0 })
}

/// Apply the loadout's yearly effects: the production bonus, and fuel
/// regeneration from a scooping engine (fuel never passes full).
pub fn apply_loadout_effects(sim: &mut SimState, data: &GameData)
    requires
        old(sim).wf(),
        data.config.wf(),
        components_ok(data.ship_components@),
    ensures
        loadout_applied(*old(sim), *data, *final(sim)),
        final(sim).wf(),
{
    let stats = loadout_stats(sim, data);
    let cfg = &data.config.ship;
    proof {
        let sp = stats.speed as int;
        let cr = cfg.credits_per_speed as int;
        assert(-0x30_0000 * 0x100_0000_0000 <= sp * cr <= 0x30_0000 * 0x100_0000_0000)
            by (nonlinear_arith)
            requires
                -0x30_0000 <= sp <= 0x30_0000,
                -0x100_0000_0000 <= cr <= 0x100_0000_0000,
        ;
        let fr = stats.fuel_regen as int;
        let fp = cfg.fuel_regen_per_point as int;
        assert(-0x30_0000 * 0x100_0000_0000 <= fr * fp <= 0x30_0000 * 0x100_0000_0000)
            by (nonlinear_arith)
            requires
                -0x30_0000 <= fr <= 0x30_0000,
                -0x100_0000_0000 <= fp <= 0x100_0000_0000,
        ;
    }
    let credits = (stats.speed as i64) * cfg.credits_per_speed;
    let minerals = fdiv_i128(mul_wide(stats.cargo as i64, cfg.minerals_per_cargo), ONE as i128);
    proof {
        let cg = stats.cargo as int;
        let mp = cfg.minerals_per_cargo as int;
        assert(-0x30_0000 * 0x100_0000_0000 <= cg * mp <= 0x30_0000 * 0x100_0000_0000)
            by (nonlinear_arith)
            requires
                -0x30_0000 <= cg <= 0x30_0000,
                -0x100_0000_0000 <= mp <= 0x100_0000_0000,
        ;
    }
    let bonus = ResourceDelta {
        credits,
        energy: 0,
        minerals: minerals as i64,
        food: 0,
        influence: 0,
    };
    sim.resources.apply(&bonus);
    if stats.fuel_regen > 0 {
        let regen = (stats.fuel_regen as i64) * cfg.fuel_regen_per_point;
        sim.ship.fuel = if sim.ship.fuel + regen < ONE {
            sim.ship.fuel + regen
        } else {
            ONE
        };
    }
}

} // verus!
