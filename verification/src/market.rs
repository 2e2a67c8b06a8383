//! Market trading and yearly price drift.

use vstd::prelude::*;

use crate::deltas::ResourceDelta;
use crate::fixed::{
    cdiv, cdiv_i128, clamp, clamp_i128, fdiv, fdiv_i128, mul_wide, tdiv, tdiv_i128, ONE,
};
use crate::rolls::Rolls;
use crate::state::{base_price, spec_base_price, trade_label, MarketEntry, SimState, TradeResource};
use crate::util::join3;
use crate::text::{signed_decimal, signed_decimal_text};

verus! {

/// Half-width of the yearly drift, as a fraction of the price.
pub open spec fn drift_span() -> int {
    80_000
}

/// The lowest price a good may reach: half its base.
pub open spec fn price_floor(r: TradeResource) -> int {
    spec_base_price(r) / 2
}

/// The highest price a good may reach: three times its base.
pub open spec fn price_ceiling(r: TradeResource) -> int {
    spec_base_price(r) * 3
}

/// An entry after a yearly drift of `d` millionths.
pub open spec fn drifted(e: MarketEntry, d: int) -> MarketEntry {
    let price = clamp(
        tdiv(e.price * (ONE + d), ONE as int),
        price_floor(e.resource),
        price_ceiling(e.resource),
    );
    MarketEntry {
        resource: e.resource,
        price: price as i64,
        trend: clamp(price - e.price, i64::MIN as int, i64::MAX as int) as i64,
    }
}

/// The drift the `i`-th entry reads from the tape.
pub open spec fn drift_draw(rolls: Rolls, i: nat) -> int {
    rolls.advanced_by(i).below_value((2 * drift_span() + 1) as nat) - drift_span()
}

/// Yearly random walk on each tradeable's price, kept within half to three
/// times its base. Each entry takes one draw, in order.
pub fn drift_prices(sim: &mut SimState)
    ensures
        final(sim).market.entries.len() == old(sim).market.entries.len(),
        forall|i: int|
            0 <= i < old(sim).market.entries.len() ==> #[trigger] final(sim).market.entries@[i]
                == drifted(old(sim).market.entries@[i], drift_draw(old(sim).rolls, i as nat)),
        forall|i: int|
            0 <= i < final(sim).market.entries.len() ==> price_floor(
                (#[trigger] final(sim).market.entries@[i]).resource,
            ) <= final(sim).market.entries@[i].price <= price_ceiling(
                final(sim).market.entries@[i].resource,
            ),
        final(sim).rolls == old(sim).rolls.advanced_by(old(sim).market.entries.len() as nat),
        final(sim).market.impact_per_unit == old(sim).market.impact_per_unit,
        *final(sim) == (SimState { market: final(sim).market, rolls: final(sim).rolls, ..*old(sim) }),
{
    let n = sim.market.entries.len();
    let mut i: usize = 0;
    while i < n
        invariant
            n == old(sim).market.entries.len(),
            i <= n,
            sim.market.entries.len() == n,
            forall|j: int|
                0 <= j < i ==> #[trigger] sim.market.entries@[j] == drifted(
                    old(sim).market.entries@[j],
                    drift_draw(old(sim).rolls, j as nat),
                ),
            forall|j: int|
                i <= j < n ==> #[trigger] sim.market.entries@[j] == old(sim).market.entries@[j],
            sim.rolls == old(sim).rolls.advanced_by(i as nat),
            sim.market.impact_per_unit == old(sim).market.impact_per_unit,
            *sim == (SimState { market: sim.market, rolls: sim.rolls, ..*old(sim) }),
        decreases n - i,
    {
        proof {
            lemma_advanced_by_succ(old(sim).rolls, i as nat);
        }
        let roll = sim.rolls.below(160_001);
        let drift: i64 = (roll as i64) - 80_000;
        let old_entry = sim.market.entries[i];
        let base = base_price(old_entry.resource);
        let scaled = tdiv_i128(mul_wide(old_entry.price, ONE + drift), ONE as i128);
        let price = clamp_i128(scaled, base / 2, base * 3);
        let trend = clamp_i128((price as i128) - (old_entry.price as i128), i64::MIN, i64::MAX);
        sim.market.entries.set(i, MarketEntry { resource: old_entry.resource, price, trend });
        i = i + 1;
    }
    proof {
        assert forall|j: int|
            0 <= j < sim.market.entries.len() implies price_floor(
            (#[trigger] sim.market.entries@[j]).resource,
        ) <= sim.market.entries@[j].price <= price_ceiling(sim.market.entries@[j].resource) by {
            let e = old(sim).market.entries@[j];
            assert(sim.market.entries@[j] == drifted(e, drift_draw(old(sim).rolls, j as nat)));
        }
    }
}

/// One more roll after `k`.
pub proof fn lemma_advanced_by_succ(r: Rolls, k: nat)
    ensures
        r.advanced_by(k + 1) == r.advanced_by(k).advanced(),
    decreases k,
{
    assert(r.advanced_by(k + 1) == r.advanced().advanced_by(k));
    if k > 0 {
        lemma_advanced_by_succ(r.advanced(), (k - 1) as nat);
        assert(r.advanced_by(k) == r.advanced().advanced_by((k - 1) as nat));
    } else {
        assert(r.advanced().advanced_by(0) == r.advanced());
    }
}

/// The first entry for good `r` at or after `start`.
pub open spec fn entry_from(es: Seq<MarketEntry>, r: TradeResource, start: int) -> Option<int>
    decreases es.len() - start,
{
    if start < 0 || start >= es.len() {
        None
    } else if es[start].resource == r {
        Some(start)
    } else {
        entry_from(es, r, start + 1)
    }
}

proof fn lemma_entry_from(es: Seq<MarketEntry>, r: TradeResource, start: int)
    requires
        0 <= start,
    ensures
        match entry_from(es, r, start) {
            Some(i) => start <= i < es.len() && es[i].resource == r,
            None => true,
        },
    decreases es.len() - start,
{
    if start < es.len() && es[start].resource != r {
        lemma_entry_from(es, r, start + 1);
    }
}

/// The local price of good `r`: its market entry, or its base when unlisted.
pub open spec fn price_value(es: Seq<MarketEntry>, r: TradeResource) -> i64 {
    match entry_from(es, r, 0) {
        Some(i) => es[i].price,
        None => spec_base_price(r),
    }
}

fn entry_index(es: &Vec<MarketEntry>, r: TradeResource) -> (res: Option<usize>)
    ensures
        res matches Some(i) ==> entry_from(es@, r, 0) == Some(i as int) && i < es.len(),
        res is None ==> entry_from(es@, r, 0) is None,
{
    let mut i: usize = 0;
    while i < es.len()
        invariant
            i <= es.len(),
            entry_from(es@, r, 0) == entry_from(es@, r, i as int),
        decreases es.len() - i,
    {
        if es[i].resource == r {
            return Some(i);
        }
        i = i + 1;
    }
    None
}

/// The local price of good `r`, in millionths of a credit per unit.
pub fn price_of(sim: &SimState, resource: TradeResource) -> (p: i64)
    ensures
        p == price_value(sim.market.entries@, resource),
{
    match entry_index(&sim.market.entries, resource) {
        Some(i) => sim.market.entries[i].price,
        None => base_price(resource),
    }
}

/// A delta moving `amount` of `resource` and `credits` credits.
pub open spec fn trade(resource: TradeResource, amount: i64, credits: i64) -> ResourceDelta {
    let zero = ResourceDelta { credits, energy: 0, minerals: 0, food: 0, influence: 0 };
    match resource {
        TradeResource::Energy => ResourceDelta { energy: amount, ..zero },
        TradeResource::Minerals => ResourceDelta { minerals: amount, ..zero },
        TradeResource::Food => ResourceDelta { food: amount, ..zero },
        TradeResource::Influence => ResourceDelta { influence: amount, ..zero },
    }
}

fn trade_delta(resource: TradeResource, amount: i64, credits: i64) -> (d: ResourceDelta)
    ensures
        d == trade(resource, amount, credits),
{
    let mut delta = ResourceDelta { credits, energy: 0, minerals: 0, food: 0, influence: 0 };
    match resource {
        TradeResource::Energy => delta.energy = amount,
        TradeResource::Minerals => delta.minerals = amount,
        TradeResource::Food => delta.food = amount,
        TradeResource::Influence => delta.influence = amount,
    }
    delta
}

/// The symmetric saturation range of a credit sum.
pub open spec fn sat(v: int) -> int {
    clamp(v, -(i64::MAX as int), i64::MAX as int)
}

/// What buying `amount` at `price` costs: rounded up, saturating.
pub open spec fn buy_cost(price: i64, amount: i64) -> int {
    sat(cdiv(price * amount, ONE as int))
}

/// What selling `amount` at `price` raises: rounded down, saturating.
pub open spec fn sell_proceeds(price: i64, amount: i64) -> int {
    sat(fdiv(price * amount, ONE as int))
}

/// The price after the ship's own trade of `signed_amount` units moved it.
pub open spec fn shifted_price(e: MarketEntry, k: i64, signed_amount: i64) -> int {
    let base = spec_base_price(e.resource);
    clamp(
        e.price + tdiv(base * k * signed_amount, (ONE as int) * (ONE as int)),
        price_floor(e.resource),
        price_ceiling(e.resource),
    )
}

/// The market entries after a trade of `signed_amount` units of `r`.
pub open spec fn after_trade(es: Seq<MarketEntry>, k: i64, r: TradeResource, signed_amount: i64) -> Seq<
    MarketEntry,
> {
    if k == 0 {
        es
    } else {
        match entry_from(es, r, 0) {
            Some(i) => es.update(
                i,
                MarketEntry { price: shifted_price(es[i], k, signed_amount) as i64, ..es[i] },
            ),
            None => es,
        }
    }
}

/// What buying `amount` of `resource` does (see [`buy`]).
pub open spec fn bought(s0: SimState, resource: TradeResource, amount: i64, s1: SimState, res: Result<(), String>) -> bool {
    &&& (({
        let cost = buy_cost(price_value(s0.market.entries@, resource), amount);
        let d = trade(resource, amount, (-cost) as i64);
        &&& res is Ok <==> s0.resources.affords(d)
        &&& res is Ok ==> s1.resources == s0.resources.applied(d)
            && s1.market.entries@ == after_trade(
            s0.market.entries@,
            s0.market.impact_per_unit,
            resource,
            amount,
        )
    }))
    &&& (res is Err ==> s1 == s0)
    &&& (res matches Err(e) ==> e@ == "Need "@ + signed_decimal(
        buy_cost(price_value(s0.market.entries@, resource), amount),
    ) + " credits"@)
    &&& (s1 == (SimState {
        resources: s1.resources,
        market: s1.market,
        ..s0
    }))
    &&& (s1.market.impact_per_unit == s0.market.impact_per_unit)
}

/// Buy `amount` units of `resource` at the local price (rounded up). Refused,
/// changing nothing, when the treasury cannot cover it; otherwise the purchase
/// lands and the ship's own demand pushes the price up.
pub fn buy(sim: &mut SimState, resource: TradeResource, amount: i64) -> (res: Result<(), String>)
    requires
        -ONE <= old(sim).market.impact_per_unit <= ONE,
    ensures
        bought(*old(sim), resource, amount, *final(sim), res),
{
    let price = price_of(sim, resource);
    let cost_wide = cdiv_i128(mul_wide(price, amount), ONE as i128);
    let cost = clamp_i128(cost_wide, -i64::MAX, i64::MAX);
    let delta = trade_delta(resource, amount, -cost);
    if !sim.resources.can_afford(&delta) {
        let shown = signed_decimal_text(cost);
        let text = join3("Need ", shown.as_str(), " credits");
        return Err(text);
    }
    sim.resources.apply(&delta);
    shift_price(sim, resource, amount);
    Ok(())
}

/// What selling `amount` of `resource` does (see [`sell`]).
pub open spec fn sold(s0: SimState, resource: TradeResource, amount: i64, s1: SimState, res: Result<(), String>) -> bool {
    &&& (({
        let proceeds = sell_proceeds(price_value(s0.market.entries@, resource), amount);
        let d = trade(resource, (-amount) as i64, proceeds as i64);
        &&& res is Ok <==> s0.resources.affords(d)
        &&& res is Ok ==> s1.resources == s0.resources.applied(d)
            && s1.market.entries@ == after_trade(
            s0.market.entries@,
            s0.market.impact_per_unit,
            resource,
            (-amount) as i64,
        )
    }))
    &&& (res is Err ==> s1 == s0)
    &&& (res matches Err(e) ==> e@ == "Not enough "@ + trade_label(resource) + " to sell"@)
    &&& (s1 == (SimState {
        resources: s1.resources,
        market: s1.market,
        ..s0
    }))
    &&& (s1.market.impact_per_unit == s0.market.impact_per_unit)
}

/// Sell `amount` units of `resource` at the local price (rounded down).
/// Refused, changing nothing, when the hold lacks the goods; otherwise the
/// sale lands and the flood of goods pushes the price down.
pub fn sell(sim: &mut SimState, resource: TradeResource, amount: i64) -> (res: Result<(), String>)
    requires
        -ONE <= old(sim).market.impact_per_unit <= ONE,
        amount > i64::MIN,
    ensures
        sold(*old(sim), resource, amount, *final(sim), res),
{
    let price = price_of(sim, resource);
    let wide = fdiv_i128(mul_wide(price, amount), ONE as i128);
    let proceeds = clamp_i128(wide, -i64::MAX, i64::MAX);
    let delta = trade_delta(resource, -amount, proceeds);
    if !sim.resources.can_afford(&delta) {
        let text = join3("Not enough ", resource.label(), " to sell");
        return Err(text);
    }
    sim.resources.apply(&delta);
    shift_price(sim, resource, -amount);
    Ok(())
}

/// Move a resource's local price by the ship's own trade: a positive
/// `signed_amount` (a buy) pushes it up, a negative one down, scaled by the
/// base price and the market's impact per unit, kept within the drift band.
fn shift_price(sim: &mut SimState, resource: TradeResource, signed_amount: i64)
    requires
        -ONE <= old(sim).market.impact_per_unit <= ONE,
    ensures
        final(sim).market.entries@ == after_trade(
            old(sim).market.entries@,
            old(sim).market.impact_per_unit,
            resource,
            signed_amount,
        ),
        final(sim).market.impact_per_unit == old(sim).market.impact_per_unit,
        *final(sim) == (SimState { market: final(sim).market, ..*old(sim) }),
{
    let k = sim.market.impact_per_unit;
    if k == 0 {
        return;
    }
    let base = base_price(resource);
    match entry_index(&sim.market.entries, resource) {
        Some(i) => {
            proof {
                lemma_entry_from(sim.market.entries@, resource, 0);
            }
            let e = sim.market.entries[i];
            let wide_k: i128 = mul_wide(base, k);
            proof {
                assert(-10_000_000 * ONE <= wide_k <= 10_000_000 * ONE) by (nonlinear_arith)
                    requires
                        0 < base <= 10_000_000,
                        -ONE <= k <= ONE,
                        wide_k == base * k,
                ;
                assert(-10_000_000 * ONE * 9_223_372_036_854_775_808 <= wide_k * signed_amount
                    <= 10_000_000 * ONE * 9_223_372_036_854_775_808) by (nonlinear_arith)
                    requires
                        -10_000_000 * ONE <= wide_k <= 10_000_000 * ONE,
                        -9_223_372_036_854_775_808 <= signed_amount <= 9_223_372_036_854_775_808,
                ;
            }
            let product: i128 = wide_k * (signed_amount as i128);
            let shift = tdiv_i128(product, (ONE as i128) * (ONE as i128));
            proof {
                let pi = product as int;
                let d = (ONE as int) * (ONE as int);
                if pi >= 0 {
                    assert(pi / d <= pi) by (nonlinear_arith)
                        requires
                            pi >= 0,
                            d > 0,
                    ;
                } else {
                    assert((-pi) / d <= -pi) by (nonlinear_arith)
                        requires
                            -pi >= 0,
                            d > 0,
                    ;
                }
            }
            let price = clamp_i128((e.price as i128) + shift, base / 2, base * 3);
            sim.market.entries.set(i, MarketEntry { price, ..e });
        },
        None => {},
    }
}

} // verus!
