//! Laws that tie the rules together: what every call keeps, and what one
//! rule promises of another's result.

use vstd::prelude::*;

use crate::config::{GameConfig, RealTimeConfig};
use crate::economy::{famine_losses, famine_relief, ShipFactors};
use crate::data::{EventCategory, GameData};
use crate::event_resolver::{
    band, crisis_weight, event_id, gate_open, lemma_order_forgotten, lemma_ordered_members, lemma_pick_from_in_range,
    of_category, of_family, ordered_by_id, picked,
    raw_crisis, rolled_count, sum_of, weighted_index, weights_of,
};
use crate::fixed::{scale, ONE};
use crate::rolls::Rolls;
use crate::state::{ActiveContract, SimState};
use crate::subsystems::{condition_or, life_support_loss, soften};

verus! {

/// A module buffering a family only ever softens harm, never deepens it and
/// never touches a boon: a loss scaled by a strength in 0-1 stays a loss no
/// worse than before, and a gain passes untouched.
pub proof fn law_buffering_only_softens(x: int, f: int)
    requires
        0 <= f <= ONE,
    ensures
        x < 0 ==> x <= soften(x, f) <= 0,
        x >= 0 ==> soften(x, f) == x,
{
    if x < 0 {
        let m = -x;
        assert(0 <= m * f <= m * ONE) by (nonlinear_arith)
            requires
                m > 0,
                0 <= f <= ONE,
        ;
        assert(x * f == -(m * f)) by (nonlinear_arith)
            requires
                m == -x,
        ;
        assert((m * f) / (ONE as int) <= m) by (nonlinear_arith)
            requires
                0 <= m * f <= m * ONE,
        ;
    }
}

/// The head-count change an event lands lies in the band it was shown in:
/// a change too small to range lands exactly, a ranged one between its low
/// and high ends (when they fit the head-count type).
pub proof fn law_rolled_count_within_band(count: i32, cfg: RealTimeConfig, r: Rolls)
    requires
        cfg.wf(),
    ensures
        band(count as int, cfg) is None ==> rolled_count(count, cfg, r).0 == count,
        band(count as int, cfg) matches Some((lo, hi)) ==> (i32::MIN <= lo && hi <= i32::MAX ==> lo
            <= rolled_count(count, cfg, r).0 <= hi),
{
    match band(count as int, cfg) {
        Some((lo, hi)) => {
            let span = if hi - lo + 1 >= 1 {
                hi - lo + 1
            } else {
                1
            };
            if i32::MIN <= lo && hi <= i32::MAX {
                assert(lo <= hi);
                assert(r.below_value(span as nat) < span);
            }
        },
        None => {},
    }
}

/// An event rolled by category is one of that category whose gates are all
/// open for the ship as it stood.
pub proof fn law_category_candidates_are_cleared(
    sim: SimState,
    data: GameData,
    cat: EventCategory,
    n: int,
    k: int,
)
    requires
        0 <= n <= data.events.len(),
        0 <= k < of_category(sim, data, cat, n).len(),
    ensures
        0 <= of_category(sim, data, cat, n)[k] < n,
        data.events@[of_category(sim, data, cat, n)[k] as int].category == cat,
        gate_open(sim, data.events@[of_category(sim, data, cat, n)[k] as int]),
    decreases n,
{
    if n > 0 {
        let prev = of_category(sim, data, cat, n - 1);
        if k < prev.len() {
            law_category_candidates_are_cleared(sim, data, cat, n - 1, k);
            if data.events@[n - 1].category == cat && gate_open(sim, data.events@[n - 1]) {
                assert(of_category(sim, data, cat, n)[k] == prev[k]);
            }
        }
    }
}

/// A beat's event is one of its family whose gates are all open for the
/// ship as it stood.
pub proof fn law_family_candidates_are_cleared(
    sim: SimState,
    data: GameData,
    fam: Seq<char>,
    n: int,
    k: int,
)
    requires
        0 <= n <= data.events.len(),
        0 <= k < of_family(sim, data, fam, n).len(),
    ensures
        0 <= of_family(sim, data, fam, n)[k] < n,
        data.events@[of_family(sim, data, fam, n)[k] as int].family@ == fam,
        gate_open(sim, data.events@[of_family(sim, data, fam, n)[k] as int]),
    decreases n,
{
    if n > 0 {
        let prev = of_family(sim, data, fam, n - 1);
        if k < prev.len() {
            law_family_candidates_are_cleared(sim, data, fam, n - 1, k);
            if data.events@[n - 1].family@ == fam && gate_open(sim, data.events@[n - 1]) {
                assert(of_family(sim, data, fam, n)[k] == prev[k]);
            }
        }
    }
}

/// A weighted pick among candidates names one of them, and there is a pick
/// whenever there is a candidate.
pub proof fn law_pick_names_a_candidate(s: SimState, data: GameData, cands: Seq<usize>)
    requires
        cands.len() > 0,
    ensures
        picked(s, data, cands).0 matches Some(p) && exists|k: int|
            0 <= k < cands.len() && p.template_id == data.events@[#[trigger] cands[k] as int].id,
{
    let os = ordered_by_id(data.events@, cands);
    lemma_ordered_members(data.events@, cands);
    let ws = weights_of(s, data, os);
    let roll = s.rolls.below_value(sum_of(ws) as nat) as int;
    lemma_pick_from_in_range(ws, roll);
    let k = weighted_index(ws, roll);
    assert(0 <= k < os.len());
    assert(cands.contains(os[k]));
    let j = choose|j: int| 0 <= j < cands.len() && cands[j] == os[k];
    assert(cands[j] == os[k]);
}

/// The pick does not depend on the order the candidates are listed in: in
/// a catalog where no two events share an id, the same cleared events,
/// listed in any order, give the same pick from the same ship.
pub proof fn law_pick_ignores_candidate_order(s: SimState, data: GameData, c1: Seq<usize>, c2: Seq<usize>)
    requires
        forall|i: int, j: int|
            0 <= i < data.events.len() && 0 <= j < data.events.len() && i != j ==> (#[trigger] data.events@[i]).id@
                != (#[trigger] data.events@[j]).id@,
        forall|k: int| 0 <= k < c1.len() ==> (#[trigger] c1[k]) < data.events.len(),
        c1.no_duplicates(),
        c1.to_multiset() == c2.to_multiset(),
    ensures
        picked(s, data, c1) == picked(s, data, c2),
{
    broadcast use vstd::seq_lib::group_to_multiset_ensures;
    assert(c1.to_multiset().len() == c1.len());
    assert(c2.to_multiset().len() == c2.len());
    assert forall|i: int, j: int| 0 <= i < c1.len() && 0 <= j < c1.len() && c1[i] != c1[j] implies event_id(
        data.events@,
        #[trigger] c1[i],
    ) != event_id(data.events@, #[trigger] c1[j]) by {
        assert(data.events@[c1[i] as int].id@ != data.events@[c1[j] as int].id@);
    }
    lemma_order_forgotten(data.events@, c1, c2);
}

/// The same ship with a charter whose route is more hazardous sees crises
/// weigh at least as heavily.
pub proof fn law_hazard_breeds_crises(s: SimState, config: GameConfig, c: ActiveContract, h1: i64, h2: i64)
    requires
        0 <= h1 <= h2,
        0 <= config.subsystems.security_crisis_mitigation <= ONE,
    ensures
        crisis_weight(
            SimState { contract: Some(ActiveContract { hazard: h1, ..c }), ..s },
            config,
        ) <= crisis_weight(SimState { contract: Some(ActiveContract { hazard: h2, ..c }), ..s }, config),
{
    let s1 = SimState { contract: Some(ActiveContract { hazard: h1, ..c }), ..s };
    let s2 = SimState { contract: Some(ActiveContract { hazard: h2, ..c }), ..s };
    assert(raw_crisis(s1, config) <= raw_crisis(s2, config));
    assert(condition_or(s1, "security"@, 0) == condition_or(s2, "security"@, 0));
}

/// Of two ships alike but for the condition of their security corps, the
/// one whose corps is in better repair sees crises weigh no more heavily.
pub proof fn law_security_quiets_crises(s1: SimState, s2: SimState, config: GameConfig)
    requires
        s2 == (SimState { subsystems: s2.subsystems, ..s1 }),
        0 <= condition_or(s1, "security"@, 0) <= condition_or(s2, "security"@, 0),
        0 <= config.subsystems.security_crisis_mitigation <= ONE,
    ensures
        crisis_weight(s2, config) <= crisis_weight(s1, config),
{
    let m = config.subsystems.security_crisis_mitigation as int;
    let a = condition_or(s1, "security"@, 0);
    let b = condition_or(s2, "security"@, 0);
    assert(raw_crisis(s1, config) == raw_crisis(s2, config));
    assert(0 <= a * m <= b * m) by (nonlinear_arith)
        requires
            0 <= a <= b,
            0 <= m,
    ;
    assert((a * m) / (ONE as int) <= (b * m) / (ONE as int)) by (nonlinear_arith)
        requires
            0 <= a * m <= b * m,
    ;
    assert(scale(a, m) <= scale(b, m));
}

/// A famine is never entirely painless: however the medic and the
/// infirmary help, a starving ship with anyone aboard loses at least one.
pub proof fn law_famine_never_painless(s: SimState, data: GameData, f: ShipFactors)
    requires
        s.population.count > 0,
    ensures
        famine_losses(s, data, f) >= 1,
{
    let r = famine_relief(s, data, f);
    let n = s.population.count as int;
    let a = n * 20_000 * (ONE - r);
    assert(a >= 2_000_000_000) by (nonlinear_arith)
        requires
            n >= 1,
            r <= 900_000,
            a == n * 20_000 * (ONE - r),
    ;
    let b = ONE * ONE;
    assert((a + b - 1) / b >= 1) by (nonlinear_arith)
        requires
            a >= 1,
            b == ONE * ONE,
    ;
}

/// A failing air plant never costs fewer lives for being in worse repair
/// or shorter of power: of two ships alike in their crew and their
/// gardens, the one whose plant is in no better condition and whose energy
/// store is no fuller loses at least as many to thin air.
pub proof fn law_failing_air_never_costs_less(s1: SimState, s2: SimState, config: GameConfig)
    requires
        s2.population.count == s1.population.count,
        s2.resources.energy <= s1.resources.energy,
        condition_or(s2, "life_support_habitat"@, ONE as int) <= condition_or(s1, "life_support_habitat"@, ONE as int),
        condition_or(s2, "agriculture"@, ONE as int) == condition_or(s1, "agriculture"@, ONE as int),
    ensures
        life_support_loss(s2, config) >= life_support_loss(s1, config),
{
    let cfg = config.subsystems;
    let t = cfg.life_support_failure_threshold as int;
    let m = cfg.life_support_failure_mortality as int;
    if t > 0 && m > 0 {
        let crit = cfg.life_support_energy_critical as int;
        if crit > 0 {
            let e1 = s1.resources.energy as int;
            let e2 = s2.resources.energy as int;
            assert((e2 * ONE) / crit <= (e1 * ONE) / crit) by (nonlinear_arith)
                requires
                    e2 <= e1,
                    crit > 0,
            ;
        }
        let n = s1.population.count as int;
        let bio = scale(
            cfg.agriculture_life_support_contribution as int,
            condition_or(s1, "agriculture"@, ONE as int),
        );
        let p1 = condition_or(s1, "life_support_habitat"@, ONE as int);
        let p2 = condition_or(s2, "life_support_habitat"@, ONE as int);
        let w1 = if crit <= 0 {
            ONE as int
        } else {
            crate::fixed::clamp((s1.resources.energy * ONE) / crit, 0, ONE as int)
        };
        let w2 = if crit <= 0 {
            ONE as int
        } else {
            crate::fixed::clamp((s2.resources.energy * ONE) / crit, 0, ONE as int)
        };
        assert(w2 <= w1);
        let b1 = if p1 < w1 {
            p1
        } else {
            w1
        };
        let b2 = if p2 < w2 {
            p2
        } else {
            w2
        };
        let c1 = if b1 + bio < ONE {
            b1 + bio
        } else {
            ONE as int
        };
        let c2 = if b2 + bio < ONE {
            b2 + bio
        } else {
            ONE as int
        };
        assert(c2 <= c1);
        if c2 < t {
            let v2 = crate::fixed::clamp(((t - c2) * ONE) / t, 0, ONE as int);
            let f2 = scale(m, v2);
            assert(0 <= m * v2) by (nonlinear_arith)
                requires
                    m > 0,
                    v2 >= 0,
            ;
            assert(0 <= f2);
            assert(0 <= n * f2) by (nonlinear_arith)
                requires
                    n >= 0,
                    f2 >= 0,
            ;
            if c1 < t {
                let v1 = crate::fixed::clamp(((t - c1) * ONE) / t, 0, ONE as int);
                assert(((t - c1) * ONE) / t <= ((t - c2) * ONE) / t) by (nonlinear_arith)
                    requires
                        c2 <= c1,
                        t > 0,
                ;
                assert(v1 <= v2);
                assert(0 <= m * v1 <= m * v2) by (nonlinear_arith)
                    requires
                        m > 0,
                        0 <= v1 <= v2,
                ;
                assert((m * v1) / (ONE as int) <= (m * v2) / (ONE as int)) by (nonlinear_arith)
                    requires
                        0 <= m * v1 <= m * v2,
                ;
                let f1 = scale(m, v1);
                assert(0 <= f1 <= f2);
                assert(0 <= n * f1 <= n * f2) by (nonlinear_arith)
                    requires
                        n >= 0,
                        0 <= f1 <= f2,
                ;
                assert((n * f1) / (ONE as int) <= (n * f2) / (ONE as int)) by (nonlinear_arith)
                    requires
                        0 <= n * f1 <= n * f2,
                ;
            }
        }
    }
}

} // verus!
