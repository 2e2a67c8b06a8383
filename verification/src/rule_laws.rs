//! Laws of single rules, stated by what they are for: a trade pays the
//! quoted price, a legacy's own fears count against it, firepower emboldens
//! a Wanderer ship, and a ship in distress values its own repair above all.

use vstd::prelude::*;

use crate::config::{FailureRiskConfig, GameConfig};
use crate::economy::{famine_losses, famine_relief, ShipFactors};
use crate::event_resolver::chance_of_event;
use crate::market::{price_ceiling, price_floor, shifted_price};
use crate::ship::{field_repaired, repair_target, RepairKind};
use crate::state::{spec_base_price, MarketEntry};
use crate::voyage::{governance_factor, power_factor};
use crate::data::{DilemmaOption, EventOutcome, GameData};
use crate::deltas::ShipDelta;
use crate::fixed::ONE;
use crate::legacy::{odds, risk_points, total_of};
use crate::market::{bought, price_value, sold};
use crate::outcome::score;
use crate::queries::dominant_is;
use crate::ship::loadout;
use crate::state::{LegacyTrack, ResourceState, SimState, TradeResource};

verus! {

/// How many units of `good` the stores hold.
pub open spec fn held(r: ResourceState, good: TradeResource) -> int {
    match good {
        TradeResource::Energy => r.energy as int,
        TradeResource::Minerals => r.minerals as int,
        TradeResource::Food => r.food as int,
        TradeResource::Influence => r.influence as int,
    }
}

/// Every store of the ship is non-negative.
pub open spec fn stores_nonneg(r: ResourceState) -> bool {
    r.credits >= 0 && r.energy >= 0 && r.minerals >= 0 && r.food >= 0 && r.influence >= 0
}

/// A sale lands exactly when the hold has the units, and then pays the
/// quoted local price for every unit sold, rounded down to whole credits:
/// the credits rise by `⌊price × amount / 1 000 000⌋` and the hold gives up
/// the units, nothing else in the stores changing.
pub proof fn law_sale_pays_the_quoted_price(
    s0: SimState,
    good: TradeResource,
    amount: i64,
    s1: SimState,
    res: Result<(), String>,
)
    requires
        sold(s0, good, amount, s1, res),
        stores_nonneg(s0.resources),
        0 <= amount,
        0 <= price_value(s0.market.entries@, good),
        s0.resources.credits + (price_value(s0.market.entries@, good) * amount) / (ONE as int) <= i64::MAX,
    ensures
        res is Ok <==> held(s0.resources, good) >= amount,
        res is Ok ==> s1.resources.credits == s0.resources.credits + (price_value(s0.market.entries@, good) * amount)
            / (ONE as int),
        res is Ok ==> held(s1.resources, good) == held(s0.resources, good) - amount,
        res is Err ==> s1 == s0,
{
    let p = price_value(s0.market.entries@, good) as int;
    let a = amount as int;
    assert(p * a >= 0) by (nonlinear_arith)
        requires
            p >= 0,
            a >= 0,
    ;
}

/// A purchase lands exactly when the treasury covers it, and then charges
/// the quoted local price for every unit bought, rounded up to whole
/// credits: the credits fall by `⌈price × amount / 1 000 000⌉` and the hold
/// gains the units.
pub proof fn law_purchase_charges_the_quoted_price(
    s0: SimState,
    good: TradeResource,
    amount: i64,
    s1: SimState,
    res: Result<(), String>,
)
    requires
        bought(s0, good, amount, s1, res),
        stores_nonneg(s0.resources),
        0 <= amount,
        held(s0.resources, good) + amount <= i64::MAX,
        0 <= price_value(s0.market.entries@, good),
        (price_value(s0.market.entries@, good) * amount + ONE - 1) / (ONE as int) <= i64::MAX,
    ensures
        res is Ok <==> s0.resources.credits >= (price_value(s0.market.entries@, good) * amount + ONE - 1) / (ONE as int),
        res is Ok ==> s1.resources.credits == s0.resources.credits - (price_value(s0.market.entries@, good) * amount
            + ONE - 1) / (ONE as int),
        res is Ok ==> held(s1.resources, good) == held(s0.resources, good) + amount,
        res is Err ==> s1 == s0,
{
    let p = price_value(s0.market.entries@, good) as int;
    let a = amount as int;
    assert(p * a >= 0) by (nonlinear_arith)
        requires
            p >= 0,
            a >= 0,
    ;
    if p * a == 0 {
        assert((p * a + ONE - 1) / (ONE as int) == 0);
    }
}

proof fn lemma_total_concat(a: Seq<i32>, b: Seq<i32>)
    ensures
        total_of(a + b) == total_of(a) + total_of(b),
    decreases b.len(),
{
    if b.len() > 0 {
        lemma_total_concat(a, b.drop_last());
        assert((a + b).drop_last() =~= a + b.drop_last());
    } else {
        assert(a + b =~= a);
    }
}

proof fn lemma_total_one(x: i32)
    ensures
        total_of(seq![x]) == x,
{
    assert(seq![x].drop_last() =~= Seq::<i32>::empty());
    assert(total_of(Seq::<i32>::empty()) == 0);
    assert(seq![x].last() == x);
}

/// An Adaptors campaign's failure risk: the two shared threats (cultural
/// drift above its line, unity below its line), the cost of the
/// modifications once the body-horror count reaches its line, and the
/// dread factor exactly when existential dread lies above its line.
pub proof fn law_adaptors_risk(sim: SimState, fr: FailureRiskConfig)
    requires
        sim.legacy.legacy_id@ == "adaptors"@,
    ensures
        total_of(risk_points(sim, fr)) == (if sim.population.cultural_drift > fr.drift_threshold {
            fr.drift_points as int
        } else {
            0
        }) + (if sim.population.unity < fr.unity_threshold {
            fr.unity_points as int
        } else {
            0
        }) + (if sim.legacy.body_horror_events >= fr.body_horror_threshold {
            fr.body_horror_points as int
        } else {
            0
        }) + (if sim.legacy.existential_dread > fr.dread_threshold {
            fr.dread_points as int
        } else {
            0
        }),
{
    reveal_strlit("adaptors");
    reveal_strlit("preservers");
    assert("adaptors"@ != "preservers"@) by {
        assert("adaptors"@[0] != "preservers"@[0]);
    }
    lemma_total_one(fr.drift_points);
    lemma_total_one(fr.unity_points);
    lemma_total_one(fr.body_horror_points);
    lemma_total_one(fr.dread_points);
    let e = Seq::<i32>::empty();
    let drift = if sim.population.cultural_drift > fr.drift_threshold {
        seq![fr.drift_points]
    } else {
        e
    };
    let unity = if sim.population.unity < fr.unity_threshold {
        seq![fr.unity_points]
    } else {
        e
    };
    let body = if sim.legacy.body_horror_events >= fr.body_horror_threshold {
        seq![fr.body_horror_points]
    } else {
        e
    };
    let dread = if sim.legacy.existential_dread > fr.dread_threshold {
        seq![fr.dread_points]
    } else {
        e
    };
    assert(risk_points(sim, fr) == drift + unity + (body + dread));
    lemma_total_concat(drift, unity);
    lemma_total_concat(drift + unity, body + dread);
    lemma_total_concat(body, dread);
}

/// Dread only ever adds to an Adaptors ship's risk: of two such ships
/// alike but for their existential dread, the more fearful one carries at
/// least the risk of the other (dread's points being a threat, not a
/// comfort).
pub proof fn law_more_dread_never_less_risk(s1: SimState, s2: SimState, fr: FailureRiskConfig)
    requires
        s1.legacy.legacy_id@ == "adaptors"@,
        s2 == (SimState { legacy: LegacyTrack { existential_dread: s2.legacy.existential_dread, ..s1.legacy }, ..s1 }),
        s1.legacy.existential_dread <= s2.legacy.existential_dread,
        fr.dread_points >= 0,
    ensures
        total_of(risk_points(s1, fr)) <= total_of(risk_points(s2, fr)),
{
    law_adaptors_risk(s1, fr);
    law_adaptors_risk(s2, fr);
}

/// The push the named people gives an option while it runs the ship.
pub open spec fn faction_push(sim: SimState, option: DilemmaOption) -> int {
    if option.dominant_faction@.len() > 0 && dominant_is(sim.factions@, option.dominant_faction@) {
        option.dominant_faction_odds as int
    } else {
        0
    }
}

/// On a Wanderers campaign a dilemma option's odds are its base chance,
/// plus every point of the ship's firepower at the configured rate, plus
/// the ruling people's push, kept within `[0, cap]`.
pub proof fn law_wanderer_odds(sim: SimState, data: GameData, option: DilemmaOption)
    requires
        sim.legacy.legacy_id@ == "wanderers"@,
    ensures
        ({
            let v = option.success_chance + loadout(sim.ship, data.ship_components@).combat
                * data.config.ship.combat_dilemma_odds_per_point + faction_push(sim, option);
            let cap = data.config.ship.dilemma_odds_cap as int;
            odds(sim, data, option) == if v < 0 {
                0
            } else if v > cap {
                cap
            } else {
                v
            }
        }),
{
}

/// Firepower never makes a Wanderer ship less bold: of two such ships alike
/// but for their loadout, the better-armed one's odds on any option are at
/// least the other's (for a firepower rate and an odds cap that are not
/// negative).
pub proof fn law_firepower_never_lowers_wanderer_odds(s1: SimState, s2: SimState, data: GameData, option: DilemmaOption)
    requires
        s1.legacy.legacy_id@ == "wanderers"@,
        s2 == (SimState { ship: s2.ship, ..s1 }),
        loadout(s1.ship, data.ship_components@).combat <= loadout(s2.ship, data.ship_components@).combat,
        data.config.ship.combat_dilemma_odds_per_point >= 0,
        data.config.ship.dilemma_odds_cap >= 0,
    ensures
        odds(s1, data, option) <= odds(s2, data, option),
{
    let k = data.config.ship.combat_dilemma_odds_per_point as int;
    let c1 = loadout(s1.ship, data.ship_components@).combat as int;
    let c2 = loadout(s2.ship, data.ship_components@).combat as int;
    assert(c1 * k <= c2 * k) by (nonlinear_arith)
        requires
            c1 <= c2,
            k >= 0,
    ;
    law_wanderer_odds(s1, data, option);
    law_wanderer_odds(s2, data, option);
    assert(s2.legacy == s1.legacy);
    assert(faction_push(s2, option) == faction_push(s1, option));
    let v1 = option.success_chance + c1 * k + faction_push(s1, option);
    let v2 = option.success_chance + c2 * k + faction_push(s2, option);
    assert(v1 <= v2);
}

/// Whether the hull or the life support has fallen below its warning line.
pub open spec fn in_distress(sim: SimState, config: GameConfig) -> bool {
    sim.ship.hull_integrity < config.hull_warning_threshold || sim.ship.life_support < config.life_support_warning_threshold
}

/// A ship in distress values its own repair ten times as highly: of two
/// choices alike but for what they do to the hull and the air, the one
/// mending more scores higher by the difference weighed 1000 per millionth
/// in distress and 100 otherwise.
pub proof fn law_distress_weighs_repairs_tenfold(o1: EventOutcome, o2: EventOutcome, sim: SimState, config: GameConfig)
    requires
        o2 == (EventOutcome {
            ship_delta: ShipDelta {
                hull_integrity: o2.ship_delta.hull_integrity,
                life_support: o2.ship_delta.life_support,
                ..o1.ship_delta
            },
            ..o1
        }),
    ensures
        score(o2, sim, config) - score(o1, sim, config) == ((o2.ship_delta.hull_integrity - o1.ship_delta.hull_integrity)
            + (o2.ship_delta.life_support - o1.ship_delta.life_support)) * (if in_distress(sim, config) {
            1000int
        } else {
            100
        }),
{
    let w: int = if in_distress(sim, config) {
        1000
    } else {
        100
    };
    let a = (o1.ship_delta.hull_integrity + o1.ship_delta.life_support) as int;
    let b = (o2.ship_delta.hull_integrity + o2.ship_delta.life_support) as int;
    assert(b * w - a * w == (b - a) * w) by (nonlinear_arith);
}

/// Every credit a choice brings is worth 100 000 points, whatever else it
/// does: two choices alike but for their credits differ in score by that
/// much per credit.
pub proof fn law_credits_weigh_evenly(o1: EventOutcome, o2: EventOutcome, sim: SimState, config: GameConfig)
    requires
        o2 == (EventOutcome {
            resource_delta: crate::deltas::ResourceDelta { credits: o2.resource_delta.credits, ..o1.resource_delta },
            ..o1
        }),
    ensures
        score(o2, sim, config) - score(o1, sim, config) == (o2.resource_delta.credits - o1.resource_delta.credits)
            * 100_000,
{
}

/// Food is weighed twice as heavily when the stores are under the crisis
/// line: two choices alike but for their food differ by a million points a
/// unit, doubled when food is short.
pub proof fn law_short_food_weighs_double(o1: EventOutcome, o2: EventOutcome, sim: SimState, config: GameConfig)
    requires
        o2 == (EventOutcome {
            resource_delta: crate::deltas::ResourceDelta { food: o2.resource_delta.food, ..o1.resource_delta },
            ..o1
        }),
    ensures
        score(o2, sim, config) - score(o1, sim, config) == (o2.resource_delta.food - o1.resource_delta.food) * ONE * (
        if sim.resources.food < config.low_food_threshold {
            2int
        } else {
            1
        }),
{
    let w: int = if sim.resources.food < config.low_food_threshold {
        2
    } else {
        1
    };
    let a = o1.resource_delta.food as int;
    let b = o2.resource_delta.food as int;
    assert(b * w * ONE - a * w * ONE == (b - a) * ONE * w) by (nonlinear_arith);
}

/// A field repair patches its system by the configured gain but never past
/// the field ceiling, spends the configured parts, and touches neither the
/// other system nor the fuel.
pub proof fn law_field_repair_stops_at_the_ceiling(
    s0: SimState,
    config: GameConfig,
    kind: RepairKind,
    s1: SimState,
    res: Result<(), String>,
)
    requires
        field_repaired(s0, config, kind, s1, res),
        res is Ok,
        config.repair.field_gain >= 0,
        config.repair.field_parts_cost >= 0,
    ensures
        repair_target(s1.ship, kind) <= config.repair.field_ceiling,
        repair_target(s0.ship, kind) < repair_target(s1.ship, kind) || config.repair.field_gain == 0,
        repair_target(s1.ship, kind) - repair_target(s0.ship, kind) <= config.repair.field_gain,
        repair_target(s1.ship, kind) == repair_target(s0.ship, kind) + config.repair.field_gain
            || repair_target(s1.ship, kind) == config.repair.field_ceiling,
        s1.ship.spare_parts == s0.ship.spare_parts - config.repair.field_parts_cost,
        s1.ship.fuel == s0.ship.fuel,
        kind == RepairKind::Hull ==> s1.ship.life_support == s0.ship.life_support,
        kind == RepairKind::LifeSupport ==> s1.ship.hull_integrity == s0.ship.hull_integrity,
{
}

/// The reactive event chance grows by a tenth for every quiet year and by a
/// fifth of the charter's progress, never past the cap: more quiet or more
/// progress never lowers it, and under the cap one more quiet year adds
/// exactly 100 000 millionths.
pub proof fn law_quiet_years_raise_the_event_chance(config: GameConfig, y1: u32, y2: u32, p1: int, p2: int)
    requires
        y1 <= y2,
        p1 <= p2,
    ensures
        chance_of_event(config, y1, p1) <= chance_of_event(config, y2, p2),
        chance_of_event(config, y2, p2) <= config.event_chance_cap,
        y1 < u32::MAX && config.event_chance_base + 100_000 * (y1 + 1) + p1 / 5 <= config.event_chance_cap ==> chance_of_event(
            config,
            (y1 + 1) as u32,
            p1,
        ) == chance_of_event(config, y1, p1) + 100_000,
{
    assert(p1 / 5 <= p2 / 5) by (nonlinear_arith)
        requires
            p1 <= p2,
    ;
}

/// Unrest only ever thins the influence minted: the governance factor never
/// falls as stability rises, lies between the floor and one, and is whole at
/// or above the governance line.
pub proof fn law_stability_never_lowers_governance(s1: SimState, s2: SimState, config: GameConfig)
    requires
        0 <= s1.population.stability <= s2.population.stability,
        0 <= config.influence_governance_floor <= ONE,
    ensures
        governance_factor(s1, config) <= governance_factor(s2, config),
        config.influence_governance_floor <= governance_factor(s1, config) <= ONE
            || config.influence_governance_threshold <= 0 || s1.population.stability > ONE,
        s1.population.stability >= config.influence_governance_threshold ==> governance_factor(s1, config) == ONE,
{
    let t = config.influence_governance_threshold as int;
    let f = config.influence_governance_floor as int;
    let a = s1.population.stability as int;
    let b = s2.population.stability as int;
    if t > 0 {
        assert(((ONE - f) * a) / t <= ((ONE - f) * b) / t) by (nonlinear_arith)
            requires
                0 <= a <= b,
                0 <= f <= ONE,
                t > 0,
        ;
        if a < t {
            assert(0 <= ((ONE - f) * a) / t <= ONE - f) by (nonlinear_arith)
                requires
                    0 <= a < t,
                    0 <= f <= ONE,
            ;
        }
        if b < t {
            assert(((ONE - f) * b) / t <= ONE - f) by (nonlinear_arith)
                requires
                    0 <= b < t,
                    0 <= f <= ONE,
            ;
        }
    }
}

/// Short power only ever cuts output: the production factor never falls
/// as the energy store rises, lies in `[1 - shed, 1]`, and is whole at or
/// above the low-energy line.
pub proof fn law_energy_never_lowers_output(s1: SimState, s2: SimState, config: GameConfig)
    requires
        s1.resources.energy <= s2.resources.energy,
        0 <= config.low_energy_production_shed <= ONE,
    ensures
        power_factor(s1, config) <= power_factor(s2, config),
        ONE - config.low_energy_production_shed <= power_factor(s1, config) <= ONE,
        s1.resources.energy >= config.low_energy_threshold ==> power_factor(s1, config) == ONE,
{
    let shed = config.low_energy_production_shed as int;
    let t = config.low_energy_threshold as int;
    let e1: int = if s1.resources.energy >= 0 {
        s1.resources.energy as int
    } else {
        0
    };
    let e2: int = if s2.resources.energy >= 0 {
        s2.resources.energy as int
    } else {
        0
    };
    if shed > 0 && t > 0 {
        if e1 < t {
            assert(0 <= (e1 * ONE) / t <= ONE) by (nonlinear_arith)
                requires
                    0 <= e1 < t,
            ;
            let g1 = ONE - (e1 * ONE) / t;
            assert(0 <= shed * g1 <= shed * ONE) by (nonlinear_arith)
                requires
                    0 <= g1 <= ONE,
                    0 <= shed,
            ;
            assert((shed * g1) / (ONE as int) <= shed) by (nonlinear_arith)
                requires
                    0 <= shed * g1 <= shed * ONE,
            ;
            if e2 < t {
                assert((e1 * ONE) / t <= (e2 * ONE) / t) by (nonlinear_arith)
                    requires
                        0 <= e1 <= e2,
                        t > 0,
                ;
                assert(0 <= (e2 * ONE) / t <= ONE) by (nonlinear_arith)
                    requires
                        0 <= e2 < t,
                ;
                let g2 = ONE - (e2 * ONE) / t;
                assert(0 <= shed * g2 <= shed * g1) by (nonlinear_arith)
                    requires
                        0 <= g2 <= g1,
                        0 <= shed,
                ;
                assert((shed * g2) / (ONE as int) <= (shed * g1) / (ONE as int)) by (nonlinear_arith)
                    requires
                        0 <= shed * g2 <= shed * g1,
                ;
            }
        }
    }
}

/// A medic's or an infirmary's help never costs lives: of two famines on
/// the same ship, the one with at least as much relief takes no more.
pub proof fn law_relief_never_costs_lives(
    s: SimState,
    data: GameData,
    f1: ShipFactors,
    f2: ShipFactors,
)
    requires
        f1.famine_loss_reduction <= f2.famine_loss_reduction,
    ensures
        famine_losses(s, data, f2) <= famine_losses(s, data, f1),
{
    let r1 = famine_relief(s, data, f1);
    let r2 = famine_relief(s, data, f2);
    assert(r1 <= r2);
    let n = s.population.count as int;
    let a1 = n * 20_000 * (ONE - r1);
    let a2 = n * 20_000 * (ONE - r2);
    assert(a2 <= a1) by (nonlinear_arith)
        requires
            n >= 0,
            r1 <= r2,
            a1 == n * 20_000 * (ONE - r1),
            a2 == n * 20_000 * (ONE - r2),
    ;
    assert(a1 >= 0 && a2 >= 0) by (nonlinear_arith)
        requires
            n >= 0,
            r1 <= 900_000,
            r2 <= 900_000,
            a1 == n * 20_000 * (ONE - r1),
            a2 == n * 20_000 * (ONE - r2),
    ;
    let b = ONE * ONE;
    if a2 > 0 {
        assert((a2 + b - 1) / b <= (a1 + b - 1) / b) by (nonlinear_arith)
            requires
                0 < a2 <= a1,
                b > 0,
        ;
    }
}

/// The ship's own trade moves the local price the way it trades: a
/// purchase never lowers it and a sale never raises it (for a price within
/// its band and a non-negative impact), each unit moving it by the base
/// price times the impact per unit, in millionths of millionths, before it
/// is held to the band.
pub proof fn law_trade_moves_the_price_its_way(e: MarketEntry, k: i64, n: i64)
    requires
        0 <= k,
        price_floor(e.resource) <= e.price <= price_ceiling(e.resource),
    ensures
        n >= 0 ==> shifted_price(e, k, n) >= e.price,
        n <= 0 ==> shifted_price(e, k, n) <= e.price,
        n >= 0 && e.price + (spec_base_price(e.resource) * k * n) / ((ONE as int) * (ONE as int)) <= price_ceiling(
            e.resource,
        ) ==> shifted_price(e, k, n) == e.price + (spec_base_price(e.resource) * k * n) / ((ONE as int) * (
        ONE as int)),
{
    let base = spec_base_price(e.resource) as int;
    let kk = k as int;
    let nn = n as int;
    if nn >= 0 {
        assert(base * kk * nn >= 0) by (nonlinear_arith)
            requires
                base >= 0,
                kk >= 0,
                nn >= 0,
        ;
        if nn == 0 {
            assert(base * kk * nn == 0);
        }
    } else {
        assert(base * kk * nn <= 0) by (nonlinear_arith)
            requires
                base >= 0,
                kk >= 0,
                nn < 0,
        ;
        let m = -(base * kk * nn);
        assert(m / ((ONE as int) * (ONE as int)) >= 0) by (nonlinear_arith)
            requires
                m >= 0,
        ;
    }
}

} // verus!
