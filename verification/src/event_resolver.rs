//! Events: which templates may fire, which choices are on the table, the
//! twist that rides an event, how an event is rolled, and what a choice does.

use vstd::prelude::*;

use crate::config::{bounded, GameConfig, RealTimeConfig};
use crate::contract::{
    ceilings_met, floors_met, all_aboard, all_factions_aboard, reputation_ceilings_met,
    reputation_floors_met, timeline_ok,
};
use crate::data::{
    ApprovalCeiling, ApprovalFloor, Complication, EventCategory, EventOutcome, EventTemplate,
    GameData, KnowledgeFloor, SubsystemGate,
};
use crate::fixed::{mul_frac, scale, BOUND, ONE};
use crate::queries::{dominant_is, fires};
use crate::rolls::Rolls;
use crate::state::{FactionState, PendingEvent, SimState};
use crate::subsystems::{condition_of, condition_or, state_of};
use crate::util::{all_in, any_in, contains_all, contains_any, is_blank, join3, listed};
use crate::text::text_before;

verus! {

// ---------------------------------------------------------------- gates on the ship's state

/// How many times event `id` has fired.
pub open spec fn fire_value(sim: SimState, id: Seq<char>) -> u32 {
    fires(sim.event_fire_counts@, id)
}

/// Every named module exists with its condition at or below its limit.
pub open spec fn condition_gates(sim: SimState, gs: Seq<SubsystemGate>) -> bool {
    forall|i: int|
        0 <= i < gs.len() ==> (state_of(sim, #[trigger] gs[i].id@) matches Some(s) && s.condition
            <= gs[i].below)
}

/// Every named module exists with its know-how at or below its limit.
pub open spec fn knowledge_gates(sim: SimState, gs: Seq<SubsystemGate>) -> bool {
    forall|i: int|
        0 <= i < gs.len() ==> (state_of(sim, #[trigger] gs[i].id@) matches Some(s) && s.knowledge
            <= gs[i].below)
}

/// Every named module exists with its know-how at least the floor.
pub open spec fn knowledge_floors(sim: SimState, gs: Seq<KnowledgeFloor>) -> bool {
    forall|i: int|
        0 <= i < gs.len() ==> (state_of(sim, #[trigger] gs[i].id@) matches Some(s) && s.knowledge
            >= gs[i].at_least)
}

/// People `g.id` rides aboard with approval at or below `g.below`.
pub open spec fn soured(fs: Seq<FactionState>, g: ApprovalCeiling) -> bool {
    exists|j: int|
        0 <= j < fs.len() && #[trigger] fs[j].faction_id@ == g.id@ && fs[j].aboard() && fs[j].approval
            <= g.below
}

/// People `g.id` rides aboard with approval at least `g.at_least`.
pub open spec fn warmed(fs: Seq<FactionState>, g: ApprovalFloor) -> bool {
    exists|j: int|
        0 <= j < fs.len() && #[trigger] fs[j].faction_id@ == g.id@ && fs[j].aboard() && fs[j].approval
            >= g.at_least
}

/// Whether the dominant people is `id` ("" asks for none).
pub open spec fn dominance_ok(sim: SimState, id: Seq<char>) -> bool {
    id.len() == 0 || dominant_is(sim.factions@, id)
}

fn all_conditions_below(sim: &SimState, gs: &Vec<SubsystemGate>) -> (r: bool)
    ensures
        r == condition_gates(*sim, gs@),
{
    let mut i: usize = 0;
    while i < gs.len()
        invariant
            i <= gs.len(),
            forall|j: int|
                0 <= j < i ==> (state_of(*sim, #[trigger] gs@[j].id@) matches Some(s) && s.condition
                    <= gs@[j].below),
        decreases gs.len() - i,
    {
        let g = &gs[i];
        match sim.subsystem_index(g.id.as_str()) {
            Some(k) => {
                if sim.subsystems[k].condition > g.below {
                    return false;
                }
            },
            None => {
                return false;
            },
        }
        i = i + 1;
    }
    true
}

fn all_knowledge_below(sim: &SimState, gs: &Vec<SubsystemGate>) -> (r: bool)
    ensures
        r == knowledge_gates(*sim, gs@),
{
    let mut i: usize = 0;
    while i < gs.len()
        invariant
            i <= gs.len(),
            forall|j: int|
                0 <= j < i ==> (state_of(*sim, #[trigger] gs@[j].id@) matches Some(s) && s.knowledge
                    <= gs@[j].below),
        decreases gs.len() - i,
    {
        let g = &gs[i];
        match sim.subsystem_index(g.id.as_str()) {
            Some(k) => {
                if sim.subsystems[k].knowledge > g.below {
                    return false;
                }
            },
            None => {
                return false;
            },
        }
        i = i + 1;
    }
    true
}

fn all_knowledge_floors(sim: &SimState, gs: &Vec<KnowledgeFloor>) -> (r: bool)
    ensures
        r == knowledge_floors(*sim, gs@),
{
    let mut i: usize = 0;
    while i < gs.len()
        invariant
            i <= gs.len(),
            forall|j: int|
                0 <= j < i ==> (state_of(*sim, #[trigger] gs@[j].id@) matches Some(s) && s.knowledge
                    >= gs@[j].at_least),
        decreases gs.len() - i,
    {
        let g = &gs[i];
        match sim.subsystem_index(g.id.as_str()) {
            Some(k) => {
                if sim.subsystems[k].knowledge < g.at_least {
                    return false;
                }
            },
            None => {
                return false;
            },
        }
        i = i + 1;
    }
    true
}

fn is_soured(fs: &Vec<FactionState>, g: &ApprovalCeiling) -> (r: bool)
    ensures
        r == soured(fs@, *g),
{
    let mut j: usize = 0;
    while j < fs.len()
        invariant
            j <= fs.len(),
            forall|k: int|
                0 <= k < j ==> !(#[trigger] fs@[k].faction_id@ == g.id@ && fs@[k].aboard()
                    && fs@[k].approval <= g.below),
        decreases fs.len() - j,
    {
        if fs[j].is_aboard() && fs[j].approval <= g.below && crate::util::same(&fs[j].faction_id, &g.id) {
            return true;
        }
        j = j + 1;
    }
    false
}

fn is_warmed(fs: &Vec<FactionState>, g: &ApprovalFloor) -> (r: bool)
    ensures
        r == warmed(fs@, *g),
{
    let mut j: usize = 0;
    while j < fs.len()
        invariant
            j <= fs.len(),
            forall|k: int|
                0 <= k < j ==> !(#[trigger] fs@[k].faction_id@ == g.id@ && fs@[k].aboard()
                    && fs@[k].approval >= g.at_least),
        decreases fs.len() - j,
    {
        if fs[j].is_aboard() && fs[j].approval >= g.at_least && crate::util::same(&fs[j].faction_id, &g.id) {
            return true;
        }
        j = j + 1;
    }
    false
}

fn all_soured(fs: &Vec<FactionState>, gs: &Vec<ApprovalCeiling>) -> (r: bool)
    ensures
        r == (forall|i: int| 0 <= i < gs.len() ==> soured(fs@, #[trigger] gs@[i])),
{
    let mut i: usize = 0;
    while i < gs.len()
        invariant
            i <= gs.len(),
            forall|j: int| 0 <= j < i ==> soured(fs@, #[trigger] gs@[j]),
        decreases gs.len() - i,
    {
        if !is_soured(fs, &gs[i]) {
            return false;
        }
        i = i + 1;
    }
    true
}

fn all_warmed(fs: &Vec<FactionState>, gs: &Vec<ApprovalFloor>) -> (r: bool)
    ensures
        r == (forall|i: int| 0 <= i < gs.len() ==> warmed(fs@, #[trigger] gs@[i])),
{
    let mut i: usize = 0;
    while i < gs.len()
        invariant
            i <= gs.len(),
            forall|j: int| 0 <= j < i ==> warmed(fs@, #[trigger] gs@[j]),
        decreases gs.len() - i,
    {
        if !is_warmed(fs, &gs[i]) {
            return false;
        }
        i = i + 1;
    }
    true
}

fn dominance_holds(sim: &SimState, id: &String) -> (r: bool)
    ensures
        r == dominance_ok(*sim, id@),
{
    is_blank(id) || sim.is_dominant(id.as_str())
}

// ---------------------------------------------------------------- complications

/// Whether complication `c` of event `event_id` rides on the ship as it is.
pub open spec fn complication_holds(sim: SimState, event_id: Seq<char>, c: Complication) -> bool {
    &&& sim.population.cultural_drift >= c.min_cultural_drift
    &&& condition_gates(sim, c.condition_below@)
    &&& all_in(c.requires_consequence@, sim.consequences@)
    &&& (c.food_below matches Some(t) ==> sim.resources.food <= t)
    &&& dominance_ok(sim, c.requires_dominant_faction@)
    &&& all_aboard(sim, c.requires_factions_aboard@)
    &&& fire_value(sim, event_id) >= c.min_prior_occurrences
    &&& (c.max_population == 0 || sim.population.count <= c.max_population)
    &&& sim.lean_food_years >= c.min_lean_food_years
    &&& sim.fat_food_years >= c.min_fat_food_years
    &&& floors_met(sim, c.min_reputation@)
    &&& ceilings_met(sim, c.max_reputation@)
}

/// The first complication of `t`, from `start`, that rides.
pub open spec fn active_from(sim: SimState, t: EventTemplate, start: int) -> Option<int>
    decreases t.complications.len() - start,
{
    if start < 0 || start >= t.complications.len() {
        None
    } else if complication_holds(sim, t.id@, t.complications@[start]) {
        Some(start)
    } else {
        active_from(sim, t, start + 1)
    }
}

/// The complication riding `t` now: the first, in authored order, that holds.
pub open spec fn active(sim: SimState, t: EventTemplate) -> Option<int> {
    active_from(sim, t, 0)
}

proof fn lemma_active_from(sim: SimState, t: EventTemplate, start: int)
    requires
        0 <= start,
    ensures
        active_from(sim, t, start) matches Some(k) ==> start <= k < t.complications.len(),
    decreases t.complications.len() - start,
{
    if start < t.complications.len() && !complication_holds(sim, t.id@, t.complications@[start]) {
        lemma_active_from(sim, t, start + 1);
    }
}

fn complication_rides(sim: &SimState, event_id: &String, c: &Complication) -> (r: bool)
    ensures
        r == complication_holds(*sim, event_id@, *c),
{
    let food_ok = match c.food_below {
        Some(t) => sim.resources.food <= t,
        None => true,
    };
    sim.population.cultural_drift >= c.min_cultural_drift && all_conditions_below(sim, &c.condition_below)
        && contains_all(&c.requires_consequence, &sim.consequences) && food_ok && dominance_holds(
        sim,
        &c.requires_dominant_faction,
    ) && all_factions_aboard(sim, &c.requires_factions_aboard) && sim.fire_count(event_id.as_str())
        >= c.min_prior_occurrences && (c.max_population == 0 || sim.population.count
        <= c.max_population) && sim.lean_food_years >= c.min_lean_food_years && sim.fat_food_years
        >= c.min_fat_food_years && reputation_floors_met(sim, &c.min_reputation)
        && reputation_ceilings_met(sim, &c.max_reputation)
}

/// The index of the complication riding `template` now, if any.
pub fn active_complication_index(sim: &SimState, template: &EventTemplate) -> (r: Option<usize>)
    ensures
        r matches Some(k) ==> active(*sim, *template) == Some(k as int) && k
            < template.complications.len(),
        r is None ==> active(*sim, *template) is None,
{
    let mut i: usize = 0;
    while i < template.complications.len()
        invariant
            i <= template.complications.len(),
            active(*sim, *template) == active_from(*sim, *template, i as int),
        decreases template.complications.len() - i,
    {
        if complication_rides(sim, &template.id, &template.complications[i]) {
            return Some(i);
        }
        i = i + 1;
    }
    None
}

/// The one complication riding this event right now, if any: the first, in
/// authored order, whose gates all hold for the current state.
pub fn active_complication<'a>(sim: &SimState, template: &'a EventTemplate) -> (r: Option<
    &'a Complication,
>)
    ensures
        match active(*sim, *template) {
            Some(k) => r matches Some(c) && 0 <= k < template.complications.len() && *c
                == template.complications@[k],
            None => r is None,
        },
{
    match active_complication_index(sim, template) {
        Some(k) => Some(&template.complications[k]),
        None => None,
    }
}

// ---------------------------------------------------------------- the choices on the table

/// Whether outcome `o` may be chosen by the ship as it is: its required
/// deeds on record, its know-how floors met, the ship's reputation within
/// the outcome's floors and ceilings, and the named people in charge.
pub open spec fn available(sim: SimState, o: EventOutcome) -> bool {
    let a = o.availability;
    &&& all_in(a.requires_consequence@, sim.consequences@)
    &&& knowledge_floors(sim, a.min_knowledge@)
    &&& floors_met(sim, a.min_reputation@)
    &&& ceilings_met(sim, a.max_reputation@)
    &&& dominance_ok(sim, a.requires_dominant_faction@)
}

/// See [`available`].
pub fn outcome_available(sim: &SimState, outcome: &EventOutcome) -> (r: bool)
    ensures
        r == available(*sim, *outcome),
{
    let a = &outcome.availability;
    contains_all(&a.requires_consequence, &sim.consequences) && all_knowledge_floors(
        sim,
        &a.min_knowledge,
    ) && reputation_floors_met(sim, &a.min_reputation) && reputation_ceilings_met(
        sim,
        &a.max_reputation,
    ) && dominance_holds(sim, &a.requires_dominant_faction)
}

/// The indices, in authored order, of the first `n` outcomes that may be chosen.
pub open spec fn available_indices(sim: SimState, outs: Seq<EventOutcome>, n: int) -> Seq<int>
    decreases n,
{
    if n <= 0 {
        Seq::empty()
    } else if available(sim, outs[n - 1]) {
        available_indices(sim, outs, n - 1).push(n - 1)
    } else {
        available_indices(sim, outs, n - 1)
    }
}

/// The real indices of the outcomes this ship may currently pick, in
/// authored order.
pub fn available_outcome_indices(sim: &SimState, template: &EventTemplate) -> (r: Vec<usize>)
    ensures
        r.len() == available_indices(*sim, template.outcomes@, template.outcomes.len() as int).len(),
        forall|k: int|
            0 <= k < r.len() ==> #[trigger] r@[k] as int == available_indices(
                *sim,
                template.outcomes@,
                template.outcomes.len() as int,
            )[k],
{
    let ghost outs = template.outcomes@;
    let mut r: Vec<usize> = Vec::new();
    let mut i: usize = 0;
    while i < template.outcomes.len()
        invariant
            i <= template.outcomes.len(),
            outs == template.outcomes@,
            r.len() == available_indices(*sim, outs, i as int).len(),
            forall|k: int| 0 <= k < r.len() ==> #[trigger] r@[k] as int == available_indices(*sim, outs, i as int)[k],
        decreases template.outcomes.len() - i,
    {
        if outcome_available(sim, &template.outcomes[i]) {
            r.push(i);
        }
        i = i + 1;
    }
    r
}

// ---------------------------------------------------------------- the head-count band

/// `n` millionths rounded to a whole number, halves away from zero.
pub open spec fn round_half_away(n: int) -> int {
    if n >= 0 {
        (n + ONE / 2) / (ONE as int)
    } else {
        -((-n + ONE / 2) / (ONE as int))
    }
}

/// The signed band `(low, high)` a head-count change of `count` is shown and
/// rolled within: `count × (1 ∓ variance)`, each end rounded, ordered low to
/// high; none when the change is smaller than the ranging floor.
pub open spec fn band(count: int, cfg: RealTimeConfig) -> Option<(int, int)> {
    let mag = if count >= 0 {
        count
    } else {
        -count
    };
    if mag < cfg.impact_min_magnitude_for_range {
        None
    } else {
        let a = round_half_away(count * (ONE - cfg.impact_variance));
        let b = round_half_away(count * (ONE + cfg.impact_variance));
        Some(
            (if a <= b {
                a
            } else {
                b
            }, if a <= b {
                b
            } else {
                a
            }),
        )
    }
}

/// A head count within half the range of the type.
pub open spec fn count_ok(count: int) -> bool {
    -0x3FFF_FFFF_FFFF_FFFF <= count <= 0x3FFF_FFFF_FFFF_FFFF
}

fn round_millionths(n: i128) -> (r: i64)
    requires
        -0x7FFF_FFFF_FFFF_FFFF * 1_000_000 <= n <= 0x7FFF_FFFF_FFFF_FFFF * 1_000_000,
    ensures
        r == round_half_away(n as int),
{
    proof {
        let ni = n as int;
        if ni >= 0 {
            assert((ni + 500_000) / 1_000_000 <= 0x7FFF_FFFF_FFFF_FFFF) by (nonlinear_arith)
                requires
                    0 <= ni <= 0x7FFF_FFFF_FFFF_FFFF * 1_000_000,
            ;
        } else {
            assert((-ni + 500_000) / 1_000_000 <= 0x7FFF_FFFF_FFFF_FFFF) by (nonlinear_arith)
                requires
                    0 < -ni <= 0x7FFF_FFFF_FFFF_FFFF * 1_000_000,
            ;
        }
    }
    if n >= 0 {
        ((n + 500_000) / 1_000_000) as i64
    } else {
        (-((-n + 500_000) / 1_000_000)) as i64
    }
}

/// See [`band`]: the shown band of a head-count change, or none for one
/// small enough to show exactly.
pub fn impact_range(count: i64, cfg: RealTimeConfig) -> (r: Option<(i64, i64)>)
    requires
        cfg.wf(),
        count_ok(count as int),
    ensures
        match band(count as int, cfg) {
            Some((lo, hi)) => r == Some((lo as i64, hi as i64)) && lo <= hi && -2 * (if count >= 0 {
                count as int
            } else {
                -count
            }) <= lo && hi <= 2 * (if count >= 0 {
                count as int
            } else {
                -count
            }),
            None => r is None,
        },
        r matches Some((lo, hi)) ==> -2 * (if count >= 0 {
            count as int
        } else {
            -count
        }) <= lo <= hi <= 2 * (if count >= 0 {
            count as int
        } else {
            -count
        }),
{
    let mag = if count >= 0 {
        count
    } else {
        -count
    };
    if mag < cfg.impact_min_magnitude_for_range {
        return None;
    }
    let c = count as i128;
    let down = ONE as i128 - cfg.impact_variance as i128;
    let up = ONE as i128 + cfg.impact_variance as i128;
    proof {
        let ci = c as int;
        let d = down as int;
        let u = up as int;
        assert(-0x3FFF_FFFF_FFFF_FFFF * 1_000_000 <= ci * d <= 0x3FFF_FFFF_FFFF_FFFF * 1_000_000) by (nonlinear_arith)
            requires
                -0x3FFF_FFFF_FFFF_FFFF <= ci <= 0x3FFF_FFFF_FFFF_FFFF,
                0 <= d <= 1_000_000,
        ;
        assert(-0x3FFF_FFFF_FFFF_FFFF * 2_000_000 <= ci * u <= 0x3FFF_FFFF_FFFF_FFFF * 2_000_000) by (nonlinear_arith)
            requires
                -0x3FFF_FFFF_FFFF_FFFF <= ci <= 0x3FFF_FFFF_FFFF_FFFF,
                1_000_000 <= u <= 2_000_000,
        ;
    }
    let a = round_millionths(c * down);
    let b = round_millionths(c * up);
    proof {
        let ci = c as int;
        let u = up as int;
        let d = down as int;
        if ci >= 0 {
            assert(0 <= (ci * d + 500_000) / 1_000_000 <= 2 * ci) by (nonlinear_arith)
                requires
                    0 <= ci,
                    0 <= d <= 1_000_000,
            ;
            assert(0 <= (ci * u + 500_000) / 1_000_000 <= 2 * ci) by (nonlinear_arith)
                requires
                    0 <= ci,
                    0 <= u <= 2_000_000,
            ;
            assert(0 <= ci * d) by (nonlinear_arith)
                requires
                    0 <= ci,
                    0 <= d,
            ;
            assert(0 <= ci * u) by (nonlinear_arith)
                requires
                    0 <= ci,
                    0 <= u,
            ;
        } else {
            let m = -ci;
            assert(0 <= (m * d + 500_000) / 1_000_000 <= 2 * m) by (nonlinear_arith)
                requires
                    0 < m,
                    0 <= d <= 1_000_000,
            ;
            assert(0 <= (m * u + 500_000) / 1_000_000 <= 2 * m) by (nonlinear_arith)
                requires
                    0 < m,
                    0 <= u <= 2_000_000,
            ;
            assert(ci * d == -(m * d)) by (nonlinear_arith)
                requires
                    m == -ci,
            ;
            assert(ci * u == -(m * u)) by (nonlinear_arith)
                requires
                    m == -ci,
            ;
            assert(m * d >= 0) by (nonlinear_arith)
                requires
                    m > 0,
                    d >= 0,
            ;
            assert(m * u >= 0) by (nonlinear_arith)
                requires
                    m > 0,
                    u >= 0,
            ;
        }
    }
    if a <= b {
        Some((a, b))
    } else {
        Some((b, a))
    }
}

/// The head-count change rolled within its band: a change too small to range
/// applies exactly; otherwise one draw picks uniformly in `[low, high]`.
pub open spec fn rolled_count(count: i32, cfg: RealTimeConfig, r: Rolls) -> (i32, Rolls) {
    match band(count as int, cfg) {
        Some((lo, hi)) => {
            let span = if hi - lo + 1 >= 1 {
                hi - lo + 1
            } else {
                1
            };
            ((lo + r.below_value(span as nat)) as i32, r.advanced())
        },
        None => (count, r),
    }
}

/// See [`rolled_count`].
pub fn rolled_pop_count(count: i32, cfg: RealTimeConfig, rolls: &mut Rolls) -> (r: i32)
    requires
        cfg.wf(),
    ensures
        (r, *final(rolls)) == rolled_count(count, cfg, *old(rolls)),
        band(count as int, cfg) matches Some((lo, hi)) ==> (i32::MIN <= lo && hi <= i32::MAX ==> lo
            <= r <= hi),
{
    match impact_range(count as i64, cfg) {
        Some((lo, hi)) => {
            let span: u64 = if hi - lo + 1 >= 1 {
                (hi - lo + 1) as u64
            } else {
                1
            };
            let d = rolls.below_u64(span);
            assert(span as int == hi - lo + 1);
            assert(d as int == old(rolls).below_value((hi - lo + 1) as nat));
            let v: i64 = lo + d as i64;
            #[verifier::truncate]
            (v as i32)
        },
        None => count,
    }
}

/// An event's description as shown: the template's, then the riding
/// complication's addition when it has one.
pub open spec fn shown(sim: SimState, t: EventTemplate) -> Seq<char> {
    match active(sim, t) {
        Some(k) => if t.complications@[k].description_add@.len() > 0 {
            t.description@ + " "@ + t.complications@[k].description_add@
        } else {
            t.description@
        },
        None => t.description@,
    }
}

/// See [`shown`].
pub fn shown_description(sim: &SimState, template: &EventTemplate) -> (r: String)
    ensures
        r@ == shown(*sim, *template),
{
    match active_complication(sim, template) {
        Some(c) => {
            if !is_blank(&c.description_add) {
                join3(template.description.as_str(), " ", c.description_add.as_str())
            } else {
                template.description.clone()
            }
        },
        None => template.description.clone(),
    }
}

// ---------------------------------------------------------------- how likely an event is, and of what kind

/// `min(cap, base + years_since_event × 0.1 + contract_progress × 0.2)`.
pub open spec fn chance_of_event(config: GameConfig, years_since_event: u32, progress: int) -> int {
    let v = config.event_chance_base + 100_000 * years_since_event + progress / 5;
    if v <= config.event_chance_cap {
        v
    } else {
        config.event_chance_cap as int
    }
}

/// See [`chance_of_event`].
pub fn event_chance(config: &GameConfig, years_since_event: u32, contract_progress: i64) -> (r: i64)
    requires
        config.wf(),
        0 <= contract_progress <= ONE,
    ensures
        r == chance_of_event(*config, years_since_event, contract_progress as int),
        r <= config.event_chance_cap,
{
    let v = config.event_chance_base + 100_000 * (years_since_event as i64) + contract_progress / 5;
    if v <= config.event_chance_cap {
        v
    } else {
        config.event_chance_cap
    }
}

/// The charter's route hazard, zero without a charter.
pub open spec fn hazard_of(sim: SimState) -> int {
    match sim.contract {
        Some(c) => c.hazard as int,
        None => 0,
    }
}

/// The crisis weight before the security corps: a base, raised by each
/// distress of the stores, the ship and the people, and by the route hazard.
pub open spec fn raw_crisis(sim: SimState, config: GameConfig) -> int {
    300_000 + (if sim.resources.food < config.low_food_threshold {
        200_000int
    } else {
        0
    }) + (if sim.resources.energy < config.low_energy_threshold {
        200_000int
    } else {
        0
    }) + (if sim.ship.hull_integrity < config.hull_warning_threshold {
        200_000int
    } else {
        0
    }) + (if sim.ship.life_support < config.life_support_warning_threshold {
        200_000int
    } else {
        0
    }) + (if sim.population.morale < 500_000 {
        150_000int
    } else {
        0
    }) + (if sim.population.unity < 400_000 {
        150_000int
    } else {
        0
    }) + hazard_of(sim)
}

/// The crisis weight: a kept security corps dampens it by its condition,
/// never below the floor.
pub open spec fn crisis_weight(sim: SimState, config: GameConfig) -> int {
    let m = config.subsystems.security_crisis_mitigation;
    let c = raw_crisis(sim, config);
    if m > 0 {
        let d = c - scale(condition_or(sim, "security"@, 0), m as int);
        if d >= config.subsystems.crisis_weight_floor {
            d
        } else {
            config.subsystems.crisis_weight_floor as int
        }
    } else {
        c
    }
}

/// The milestone weight: high near a voyage's ends, low mid-voyage, least
/// without a charter.
pub open spec fn milestone_weight(sim: SimState) -> int {
    match sim.contract {
        Some(c) => {
            let p = c.progress_spec();
            if !(200_000 <= p <= 800_000) {
                400_000
            } else {
                150_000
            }
        },
        None => 50_000,
    }
}

/// The legacy weight: growing by a twentieth every 25 years, capped.
pub open spec fn legacy_weight(sim: SimState) -> int {
    let v = 100_000 + (sim.year / 25) * 50_000;
    if v <= 300_000 {
        v
    } else {
        300_000
    }
}

/// The four category weights, in order.
pub open spec fn category_weight_seq(sim: SimState, config: GameConfig) -> Seq<int> {
    seq![crisis_weight(sim, config), 300_000, milestone_weight(sim), legacy_weight(sim)]
}

/// The charter, if any, is one the rules can read: its timeline fits the
/// clock and its route hazard is a non-negative quantity in range.
pub open spec fn charter_ok(sim: SimState) -> bool {
    sim.contract matches Some(c) ==> timeline_ok(c) && 0 <= c.hazard <= BOUND
}

/// Category weights, scaled up by ship and population distress.
pub fn category_weights(sim: &SimState, config: &GameConfig) -> (r: [(EventCategory, i64); 4])
    requires
        sim.wf(),
        config.wf(),
        charter_ok(*sim),
    ensures
        r@ == seq![
            (EventCategory::ImmediateCrisis, crisis_weight(*sim, *config) as i64),
            (EventCategory::GenerationalChallenge, 300_000i64),
            (EventCategory::MissionMilestone, milestone_weight(*sim) as i64),
            (EventCategory::LegacyMoment, legacy_weight(*sim) as i64),
        ],
        crisis_weight(*sim, *config) >= 0,
        crisis_weight(*sim, *config) <= BOUND + 2_000_000,
{
    let mut crisis: i64 = 300_000;
    if sim.resources.food < config.low_food_threshold {
        crisis = crisis + 200_000;
    }
    if sim.resources.energy < config.low_energy_threshold {
        crisis = crisis + 200_000;
    }
    if sim.ship.hull_integrity < config.hull_warning_threshold {
        crisis = crisis + 200_000;
    }
    if sim.ship.life_support < config.life_support_warning_threshold {
        crisis = crisis + 200_000;
    }
    if sim.population.morale < 500_000 {
        crisis = crisis + 150_000;
    }
    if sim.population.unity < 400_000 {
        crisis = crisis + 150_000;
    }
    match &sim.contract {
        Some(c) => {
            crisis = crisis + c.hazard;
        },
        None => {},
    }
    assert(crisis == raw_crisis(*sim, *config));
    let mitigation = config.subsystems.security_crisis_mitigation;
    if mitigation > 0 {
        let security = condition_of(sim, "security", 0);
        let d = crisis - mul_frac(security, mitigation);
        crisis = if d >= config.subsystems.crisis_weight_floor {
            d
        } else {
            config.subsystems.crisis_weight_floor
        };
    }
    let milestone: i64 = match &sim.contract {
        Some(c) => {
            let p = c.progress();
            if !(200_000 <= p && p <= 800_000) {
                400_000
            } else {
                150_000
            }
        },
        None => 50_000,
    };
    let lv: i64 = 100_000 + ((sim.year / 25) as i64) * 50_000;
    let legacy: i64 = if lv <= 300_000 {
        lv
    } else {
        300_000
    };
    let r = [
        (EventCategory::ImmediateCrisis, crisis),
        (EventCategory::GenerationalChallenge, 300_000),
        (EventCategory::MissionMilestone, milestone),
        (EventCategory::LegacyMoment, legacy),
    ];
    assert(r@ =~= seq![
        (EventCategory::ImmediateCrisis, crisis_weight(*sim, *config) as i64),
        (EventCategory::GenerationalChallenge, 300_000i64),
        (EventCategory::MissionMilestone, milestone_weight(*sim) as i64),
        (EventCategory::LegacyMoment, legacy_weight(*sim) as i64),
    ]);
    r
}

} // verus!

verus! {

// ---------------------------------------------------------------- which templates may fire

/// Whether template `t` may enter the pool for the ship as it is: not a
/// follow-up reserved for its appointment; in one of its phases (when it
/// names any); its required deeds on record and no forbidden one; on a
/// charter bearing its tags (when it names any); under its people and with
/// its peoples aboard; every approval, know-how and condition gate met;
/// every shortage and abundance gate met; within its era ceilings, its
/// objective, crew, dynasty, hull, air, scarcity, plenty, loyalty and
/// governance gates; the ship's reputation within its floors and ceilings;
/// and past its year, generation, drift, morale and unity floors.
pub open spec fn gate_open(sim: SimState, t: EventTemplate) -> bool {
    &&& !t.scheduled_only
    &&& (t.phases.len() == 0 || (sim.contract matches Some(c) && t.phases@.contains(c.phase)))
    &&& all_in(t.requires_consequence@, sim.consequences@)
    &&& !any_in(t.forbidden_consequence@, sim.consequences@)
    &&& (t.requires_charter_tag.len() == 0 || (sim.contract matches Some(c) && all_in(
        t.requires_charter_tag@,
        c.tags@,
    )))
    &&& dominance_ok(sim, t.requires_dominant_faction@)
    &&& all_aboard(sim, t.requires_factions_aboard@)
    &&& (forall|i: int|
        0 <= i < t.faction_approval_below.len() ==> soured(
            sim.factions@,
            #[trigger] t.faction_approval_below@[i],
        ))
    &&& (forall|i: int|
        0 <= i < t.faction_approval_above.len() ==> warmed(
            sim.factions@,
            #[trigger] t.faction_approval_above@[i],
        ))
    &&& knowledge_gates(sim, t.knowledge_below@)
    &&& condition_gates(sim, t.condition_below@)
    &&& !(t.food_below matches Some(x) && sim.resources.food > x)
    &&& !(t.fuel_below matches Some(x) && sim.ship.fuel > x)
    &&& !(t.spare_parts_below matches Some(x) && sim.ship.spare_parts > x)
    &&& !(t.energy_below matches Some(x) && sim.resources.energy > x)
    &&& !(t.food_above matches Some(x) && sim.resources.food < x)
    &&& !(t.credits_above matches Some(x) && sim.resources.credits < x)
    &&& (t.max_year == 0 || sim.year <= t.max_year)
    &&& (t.max_generation == 0 || sim.dynasty.generation <= t.max_generation)
    &&& (t.min_objective_fraction <= 0 || (sim.contract matches Some(c)
        && c.objective_fraction_spec() >= t.min_objective_fraction))
    &&& (t.max_population == 0 || sim.population.count <= t.max_population)
    &&& (t.max_dynasty_size == 0 || (sim.dynasty.members.len() as u32) <= t.max_dynasty_size)
    &&& !(t.hull_below matches Some(x) && sim.ship.hull_integrity > x)
    &&& !(t.life_support_below matches Some(x) && sim.ship.life_support > x)
    &&& sim.lean_food_years >= t.min_lean_food_years
    &&& sim.fat_food_years >= t.min_fat_food_years
    &&& (t.max_legacy_loyalty <= 0 || sim.population.legacy_loyalty <= t.max_legacy_loyalty)
    &&& (t.max_stability <= 0 || sim.population.stability <= t.max_stability)
    &&& floors_met(sim, t.min_reputation@)
    &&& ceilings_met(sim, t.max_reputation@)
    &&& sim.year >= t.min_year
    &&& sim.dynasty.generation >= t.min_generation
    &&& sim.population.cultural_drift >= t.min_cultural_drift
    &&& sim.population.morale >= t.min_morale
    &&& sim.population.unity >= t.min_unity
}

fn phase_listed(phases: &Vec<crate::data::ContractPhase>, p: crate::data::ContractPhase) -> (r: bool)
    ensures
        r == phases@.contains(p),
{
    let mut i: usize = 0;
    while i < phases.len()
        invariant
            i <= phases.len(),
            forall|j: int| 0 <= j < i ==> phases@[j] != p,
        decreases phases.len() - i,
    {
        if phases[i] == p {
            assert(phases@[i as int] == p);
            return true;
        }
        i = i + 1;
    }
    false
}

/// See [`gate_open`].
pub fn passes_gate(sim: &SimState, template: &EventTemplate) -> (r: bool)
    ensures
        r == gate_open(*sim, *template),
{
    let t = template;
    if t.scheduled_only {
        return false;
    }
    if t.phases.len() > 0 {
        match &sim.contract {
            Some(c) => {
                if !phase_listed(&t.phases, c.phase) {
                    return false;
                }
            },
            None => {
                return false;
            },
        }
    }
    if !contains_all(&t.requires_consequence, &sim.consequences) {
        return false;
    }
    if contains_any(&t.forbidden_consequence, &sim.consequences) {
        return false;
    }
    if t.requires_charter_tag.len() > 0 {
        match &sim.contract {
            Some(c) => {
                if !contains_all(&t.requires_charter_tag, &c.tags) {
                    return false;
                }
            },
            None => {
                return false;
            },
        }
    }
    if !dominance_holds(sim, &t.requires_dominant_faction) {
        return false;
    }
    if !all_factions_aboard(sim, &t.requires_factions_aboard) {
        return false;
    }
    if !all_soured(&sim.factions, &t.faction_approval_below) {
        return false;
    }
    if !all_warmed(&sim.factions, &t.faction_approval_above) {
        return false;
    }
    if !all_knowledge_below(sim, &t.knowledge_below) {
        return false;
    }
    if !all_conditions_below(sim, &t.condition_below) {
        return false;
    }
    let shortage_missing = (match t.food_below {
        Some(x) => sim.resources.food > x,
        None => false,
    }) || (match t.fuel_below {
        Some(x) => sim.ship.fuel > x,
        None => false,
    }) || (match t.spare_parts_below {
        Some(x) => sim.ship.spare_parts > x,
        None => false,
    }) || (match t.energy_below {
        Some(x) => sim.resources.energy > x,
        None => false,
    });
    if shortage_missing {
        return false;
    }
    let plenty_missing = (match t.food_above {
        Some(x) => sim.resources.food < x,
        None => false,
    }) || (match t.credits_above {
        Some(x) => sim.resources.credits < x,
        None => false,
    });
    if plenty_missing {
        return false;
    }
    if t.max_year != 0 && sim.year() > t.max_year {
        return false;
    }
    if t.max_generation != 0 && sim.dynasty.generation > t.max_generation {
        return false;
    }
    if t.min_objective_fraction > 0 {
        let short = match &sim.contract {
            Some(c) => c.objective_fraction() < t.min_objective_fraction,
            None => true,
        };
        if short {
            return false;
        }
    }
    if t.max_population > 0 && sim.population.count > t.max_population {
        return false;
    }
    if t.max_dynasty_size > 0 {
        #[verifier::truncate]
        let size = sim.dynasty.members.len() as u32;
        if size > t.max_dynasty_size {
            return false;
        }
    }
    let frail = (match t.hull_below {
        Some(x) => sim.ship.hull_integrity > x,
        None => false,
    }) || (match t.life_support_below {
        Some(x) => sim.ship.life_support > x,
        None => false,
    });
    if frail {
        return false;
    }
    if sim.lean_food_years < t.min_lean_food_years {
        return false;
    }
    if sim.fat_food_years < t.min_fat_food_years {
        return false;
    }
    if t.max_legacy_loyalty > 0 && sim.population.legacy_loyalty > t.max_legacy_loyalty {
        return false;
    }
    if t.max_stability > 0 && sim.population.stability > t.max_stability {
        return false;
    }
    if !reputation_floors_met(sim, &t.min_reputation) || !reputation_ceilings_met(
        sim,
        &t.max_reputation,
    ) {
        return false;
    }
    sim.year() >= t.min_year && sim.dynasty.generation >= t.min_generation
        && sim.population.cultural_drift >= t.min_cultural_drift && sim.population.morale
        >= t.min_morale && sim.population.unity >= t.min_unity
}

} // verus!

verus! {

// ---------------------------------------------------------------- rolling an event

/// Every event template is one the rolling rules can weigh: its legacy
/// modifiers are non-negative and in range; and the catalog is of a size
/// whose weights sum within a machine word.
pub open spec fn events_ok(data: GameData) -> bool {
    &&& data.events.len() <= 1_000_000
    &&& forall|i: int, j: int|
        0 <= i < data.events.len() && 0 <= j < data.events@[i].legacy_weight_modifiers.len() ==> 0
            <= (#[trigger] data.events@[i].legacy_weight_modifiers@[j]).1 <= BOUND
}

/// The first modifier of `mods`, from `start`, keyed by `legacy`.
pub open spec fn modifier_from(mods: Seq<(String, i64)>, legacy: Seq<char>, start: int) -> Option<int>
    decreases mods.len() - start,
{
    if start < 0 || start >= mods.len() {
        None
    } else if mods[start].0@ == legacy {
        Some(start)
    } else {
        modifier_from(mods, legacy, start + 1)
    }
}

/// The roll-weight multiplier template `t` carries for `legacy` (one when unlisted).
pub open spec fn legacy_modifier(t: EventTemplate, legacy: Seq<char>) -> int {
    match modifier_from(t.legacy_weight_modifiers@, legacy, 0) {
        Some(i) => t.legacy_weight_modifiers@[i].1 as int,
        None => ONE as int,
    }
}

/// A template's roll weight: its legacy modifier, rarefied by the module
/// buffering its family.
pub open spec fn template_weight(sim: SimState, data: GameData, t: EventTemplate) -> int {
    scale(legacy_modifier(t, sim.legacy.legacy_id@), crate::subsystems::family_factor(sim, data, t.family@))
}

/// The roll weights of the candidates, in order.
pub open spec fn weights_of(sim: SimState, data: GameData, cands: Seq<usize>) -> Seq<int> {
    Seq::new(cands.len(), |k: int| template_weight(sim, data, data.events@[cands[k] as int]))
}

/// The sum of `ws`.
pub open spec fn sum_of(ws: Seq<int>) -> int
    decreases ws.len(),
{
    if ws.len() == 0 {
        0
    } else {
        sum_of(ws.drop_last()) + ws.last()
    }
}

/// Walking the weights from `k`, the index a roll lands on: the first whose
/// weight exceeds what is left of the roll.
pub open spec fn pick_from(ws: Seq<int>, roll: int, k: int) -> Option<int>
    decreases ws.len() - k,
{
    if k < 0 || k >= ws.len() {
        None
    } else if roll < ws[k] {
        Some(k)
    } else {
        pick_from(ws, roll - ws[k], k + 1)
    }
}

/// The index a roll lands on; the first when it lands on none.
pub open spec fn weighted_index(ws: Seq<int>, roll: int) -> int {
    match pick_from(ws, roll, 0) {
        Some(k) => k,
        None => 0,
    }
}

/// The index a roll lands on is one of the weights'.
pub proof fn lemma_pick_from_in_range(ws: Seq<int>, roll: int)
    requires
        ws.len() > 0,
    ensures
        0 <= weighted_index(ws, roll) < ws.len(),
{
    lemma_pick_from(ws, roll, 0);
}

proof fn lemma_pick_from(ws: Seq<int>, roll: int, k: int)
    requires
        0 <= k,
    ensures
        pick_from(ws, roll, k) matches Some(i) ==> k <= i < ws.len(),
    decreases ws.len() - k,
{
    if k < ws.len() && roll >= ws[k] {
        lemma_pick_from(ws, roll - ws[k], k + 1);
    }
}

/// The id of catalog event `c`.
pub open spec fn event_id(evs: Seq<EventTemplate>, c: usize) -> Seq<char> {
    evs[c as int].id@
}

/// Where `c` goes among `xs`: before the first entry whose id sorts after
/// its own (after every entry whose id does not).
pub open spec fn insert_pos(evs: Seq<EventTemplate>, xs: Seq<usize>, c: usize) -> int
    decreases xs.len(),
{
    if xs.len() == 0 {
        0
    } else if text_before(event_id(evs, c), event_id(evs, xs[0])) {
        0
    } else {
        1 + insert_pos(evs, xs.drop_first(), c)
    }
}

/// The candidates `cs` in ascending id order, candidates of equal id in
/// their given order (a stable sort by id).
pub open spec fn ordered_by_id(evs: Seq<EventTemplate>, cs: Seq<usize>) -> Seq<usize>
    decreases cs.len(),
{
    if cs.len() == 0 {
        Seq::empty()
    } else {
        let xs = ordered_by_id(evs, cs.drop_last());
        xs.insert(insert_pos(evs, xs, cs.last()), cs.last())
    }
}

/// No entry of `xs` has an id sorting before an earlier entry's.
pub open spec fn id_sorted(evs: Seq<EventTemplate>, xs: Seq<usize>) -> bool {
    forall|i: int, j: int| 0 <= i < j < xs.len() ==> !text_before(#[trigger] event_id(evs, xs[j]), #[trigger] event_id(evs, xs[i]))
}

proof fn lemma_insert_pos(evs: Seq<EventTemplate>, xs: Seq<usize>, c: usize, p: int)
    requires
        0 <= p <= xs.len(),
        forall|j: int| 0 <= j < p ==> !text_before(event_id(evs, c), #[trigger] event_id(evs, xs[j])),
        p < xs.len() ==> text_before(event_id(evs, c), event_id(evs, xs[p])),
    ensures
        insert_pos(evs, xs, c) == p,
    decreases xs.len(),
{
    if xs.len() > 0 && p > 0 {
        assert forall|j: int| 0 <= j < p - 1 implies !text_before(event_id(evs, c), #[trigger] event_id(evs, xs.drop_first()[j])) by {
            assert(xs.drop_first()[j] == xs[j + 1]);
        }
        if p < xs.len() {
            assert(xs.drop_first()[p - 1] == xs[p]);
        }
        lemma_insert_pos(evs, xs.drop_first(), c, p - 1);
    }
}

proof fn lemma_insert_pos_facts(evs: Seq<EventTemplate>, xs: Seq<usize>, c: usize)
    ensures
        0 <= insert_pos(evs, xs, c) <= xs.len(),
        forall|j: int| 0 <= j < insert_pos(evs, xs, c) ==> !text_before(event_id(evs, c), #[trigger] event_id(evs, xs[j])),
        insert_pos(evs, xs, c) < xs.len() ==> text_before(event_id(evs, c), event_id(evs, xs[insert_pos(evs, xs, c)])),
    decreases xs.len(),
{
    if xs.len() > 0 && !text_before(event_id(evs, c), event_id(evs, xs[0])) {
        let ys = xs.drop_first();
        lemma_insert_pos_facts(evs, ys, c);
        assert forall|j: int| 0 <= j < insert_pos(evs, xs, c) implies !text_before(event_id(evs, c), #[trigger] event_id(evs, xs[j])) by {
            if j > 0 {
                assert(xs[j] == ys[j - 1]);
            }
        }
        if insert_pos(evs, xs, c) < xs.len() {
            assert(xs[insert_pos(evs, xs, c)] == ys[insert_pos(evs, ys, c)]);
        }
    }
}

/// Sorting by id keeps the candidates, each as often as it was given.
pub proof fn lemma_ordered_keeps(evs: Seq<EventTemplate>, cs: Seq<usize>)
    ensures
        ordered_by_id(evs, cs).to_multiset() == cs.to_multiset(),
        ordered_by_id(evs, cs).len() == cs.len(),
    decreases cs.len(),
{
    broadcast use vstd::seq_lib::group_to_multiset_ensures;
    if cs.len() > 0 {
        let xs = ordered_by_id(evs, cs.drop_last());
        lemma_ordered_keeps(evs, cs.drop_last());
        lemma_insert_pos_facts(evs, xs, cs.last());
        assert(cs =~= cs.drop_last().push(cs.last()));
    }
}

/// Every candidate sorted by id is one of those given.
pub proof fn lemma_ordered_members(evs: Seq<EventTemplate>, cs: Seq<usize>)
    ensures
        ordered_by_id(evs, cs).len() == cs.len(),
        forall|k: int| 0 <= k < cs.len() ==> cs.contains(#[trigger] ordered_by_id(evs, cs)[k]),
{
    broadcast use vstd::seq_lib::group_to_multiset_ensures;
    lemma_ordered_keeps(evs, cs);
    let os = ordered_by_id(evs, cs);
    assert forall|k: int| 0 <= k < cs.len() implies cs.contains(#[trigger] ordered_by_id(evs, cs)[k]) by {
        assert(os.contains(os[k]));
        assert(os.to_multiset().count(os[k]) > 0);
    }
}

/// Candidates sorted by id are in id order.
pub proof fn lemma_ordered_sorted(evs: Seq<EventTemplate>, cs: Seq<usize>)
    ensures
        id_sorted(evs, ordered_by_id(evs, cs)),
    decreases cs.len(),
{
    if cs.len() > 0 {
        let xs = ordered_by_id(evs, cs.drop_last());
        let c = cs.last();
        lemma_ordered_sorted(evs, cs.drop_last());
        lemma_insert_pos_facts(evs, xs, c);
        let p = insert_pos(evs, xs, c);
        let ys = xs.insert(p, c);
        assert forall|i: int, j: int| 0 <= i < j < ys.len() implies !text_before(#[trigger] event_id(evs, ys[j]), #[trigger] event_id(evs, ys[i])) by {
            if i == p {
                // c before a later entry xs[j - 1], with j - 1 >= p.
                let x = ys[j];
                assert(x == xs[j - 1]);
                if text_before(event_id(evs, x), event_id(evs, c)) {
                    crate::text::lemma_text_before_trans(event_id(evs, x), event_id(evs, c), event_id(evs, xs[p]));
                    crate::text::lemma_text_before_asym(event_id(evs, c), event_id(evs, xs[p]));
                    if j - 1 > p {
                        assert(!text_before(event_id(evs, xs[j - 1]), event_id(evs, xs[p])));
                    }
                }
            } else if j == p {
                assert(ys[i] == xs[i]);
            } else {
                let a = if i < p { i } else { i - 1 };
                let b = if j < p { j } else { j - 1 };
                assert(ys[i] == xs[a]);
                assert(ys[j] == xs[b]);
            }
        }
    }
}

/// Two id-sorted lists of the same candidates, none repeated and no two
/// sharing an id, are the same list.
proof fn lemma_sorted_unique(evs: Seq<EventTemplate>, xs: Seq<usize>, ys: Seq<usize>)
    requires
        id_sorted(evs, xs),
        id_sorted(evs, ys),
        xs.to_multiset() == ys.to_multiset(),
        xs.no_duplicates(),
        forall|i: int, j: int| 0 <= i < xs.len() && 0 <= j < xs.len() && xs[i] != xs[j] ==> event_id(evs, #[trigger] xs[i]) != event_id(evs, #[trigger] xs[j]),
    ensures
        xs == ys,
    decreases xs.len(),
{
    broadcast use vstd::seq_lib::group_to_multiset_ensures;
    broadcast use vstd::multiset::group_multiset_axioms;
    assert(xs.to_multiset().len() == xs.len());
    assert(ys.to_multiset().len() == ys.len());
    if xs.len() == 0 {
        assert(ys.len() == 0);
        assert(xs =~= ys);
    } else {
        assert(ys.len() == xs.len());
        let x0 = xs[0];
        let y0 = ys[0];
        assert(xs.to_multiset().count(x0) > 0);
        assert(ys.contains(x0));
        assert(ys.to_multiset().count(y0) > 0);
        assert(xs.contains(y0));
        if x0 != y0 {
            let j = choose|j: int| 0 <= j < ys.len() && ys[j] == x0;
            let i = choose|i: int| 0 <= i < xs.len() && xs[i] == y0;
            assert(j > 0 && i > 0);
            assert(!text_before(event_id(evs, ys[j]), event_id(evs, ys[0])));
            assert(!text_before(event_id(evs, xs[i]), event_id(evs, xs[0])));
            crate::text::lemma_text_before_total(event_id(evs, x0), event_id(evs, y0));
            assert(false);
        }
        let xr = xs.drop_first();
        let yr = ys.drop_first();
        assert(xr =~= xs.remove(0));
        assert(yr =~= ys.remove(0));
        assert(xr.to_multiset() == yr.to_multiset());
        assert forall|i: int, j: int| 0 <= i < j < xr.len() implies !text_before(#[trigger] event_id(evs, xr[j]), #[trigger] event_id(evs, xr[i])) by {
            assert(xr[i] == xs[i + 1] && xr[j] == xs[j + 1]);
        }
        assert forall|i: int, j: int| 0 <= i < j < yr.len() implies !text_before(#[trigger] event_id(evs, yr[j]), #[trigger] event_id(evs, yr[i])) by {
            assert(yr[i] == ys[i + 1] && yr[j] == ys[j + 1]);
        }
        assert forall|i: int, j: int| 0 <= i < xr.len() && 0 <= j < xr.len() && xr[i] != xr[j] implies event_id(evs, #[trigger] xr[i]) != event_id(evs, #[trigger] xr[j]) by {
            assert(xr[i] == xs[i + 1] && xr[j] == xs[j + 1]);
        }
        lemma_sorted_unique(evs, xr, yr);
        assert(xs =~= seq![x0] + xr);
        assert(ys =~= seq![y0] + yr);
    }
}

/// Sorting by id does not depend on the order the candidates are given in:
/// the same candidates, none repeated and no two sharing an id, sort the
/// same however they are listed.
pub proof fn lemma_order_forgotten(evs: Seq<EventTemplate>, c1: Seq<usize>, c2: Seq<usize>)
    requires
        c1.to_multiset() == c2.to_multiset(),
        c1.no_duplicates(),
        forall|i: int, j: int| 0 <= i < c1.len() && 0 <= j < c1.len() && c1[i] != c1[j] ==> event_id(evs, #[trigger] c1[i]) != event_id(evs, #[trigger] c1[j]),
    ensures
        ordered_by_id(evs, c1) == ordered_by_id(evs, c2),
{
    broadcast use vstd::seq_lib::group_to_multiset_ensures;
    let o1 = ordered_by_id(evs, c1);
    let o2 = ordered_by_id(evs, c2);
    lemma_ordered_keeps(evs, c1);
    lemma_ordered_keeps(evs, c2);
    lemma_ordered_sorted(evs, c1);
    lemma_ordered_sorted(evs, c2);
    lemma_ordered_members(evs, c1);
    c1.lemma_multiset_has_no_duplicates();
    o1.lemma_multiset_has_no_duplicates_conv();
    assert forall|i: int, j: int| 0 <= i < o1.len() && 0 <= j < o1.len() && o1[i] != o1[j] implies event_id(evs, #[trigger] o1[i]) != event_id(evs, #[trigger] o1[j]) by {
        assert(c1.contains(o1[i]));
        assert(c1.contains(o1[j]));
    }
    lemma_sorted_unique(evs, o1, o2);
}

/// The candidates sorted by id (see [`ordered_by_id`]).
fn sort_by_id(data: &GameData, cands: &Vec<usize>) -> (r: Vec<usize>)
    requires
        forall|k: int| 0 <= k < cands.len() ==> (#[trigger] cands@[k]) < data.events.len(),
    ensures
        r@ == ordered_by_id(data.events@, cands@),
{
    let ghost evs = data.events@;
    let mut out: Vec<usize> = Vec::new();
    let mut i: usize = 0;
    while i < cands.len()
        invariant
            i <= cands.len(),
            evs == data.events@,
            forall|k: int| 0 <= k < cands.len() ==> (#[trigger] cands@[k]) < data.events.len(),
            out@ == ordered_by_id(evs, cands@.subrange(0, i as int)),
            out.len() == i,
            forall|k: int| 0 <= k < out.len() ==> (#[trigger] out@[k]) < data.events.len(),
        decreases cands.len() - i,
    {
        let c = cands[i];
        let mut p: usize = 0;
        while p < out.len()
            invariant
                p <= out.len(),
                c < data.events.len(),
                forall|k: int| 0 <= k < out.len() ==> (#[trigger] out@[k]) < data.events.len(),
                forall|j: int| 0 <= j < p ==> !text_before(event_id(evs, c), #[trigger] event_id(evs, out@[j])),
                evs == data.events@,
            ensures
                p <= out.len(),
                forall|j: int| 0 <= j < p ==> !text_before(event_id(evs, c), #[trigger] event_id(evs, out@[j])),
                p < out.len() ==> text_before(event_id(evs, c), event_id(evs, out@[p as int])),
            decreases out.len() - p,
        {
            let q = out[p];
            if crate::text::str_before(data.events[c].id.as_str(), data.events[q].id.as_str()) {
                break;
            }
            p = p + 1;
        }
        proof {
            lemma_insert_pos(evs, out@, c, p as int);
            let cs = cands@.subrange(0, i + 1);
            assert(cs.drop_last() =~= cands@.subrange(0, i as int));
            assert(cs.last() == c);
        }
        let ghost before = out@;
        out.insert(p, c);
        proof {
            assert forall|k: int| 0 <= k < out.len() implies (#[trigger] out@[k]) < data.events.len() by {
                if k < p {
                    assert(out@[k] == before[k]);
                } else if k > p {
                    assert(out@[k] == before[k - 1]);
                }
            }
        }
        i = i + 1;
    }
    proof {
        assert(cands@.subrange(0, cands.len() as int) =~= cands@);
    }
    out
}

/// A weighted pick among gate-cleared candidates: none when there are none
/// (and no draw); otherwise the candidates are put in ascending id order
/// (see [`ordered_by_id`]), one draw weighs them in that order, the chosen
/// event is returned pending, dated this month, and the month recorded as
/// the last an event fired.
pub open spec fn picked(s: SimState, data: GameData, cands: Seq<usize>) -> (Option<PendingEvent>, SimState) {
    if cands.len() == 0 {
        (None, s)
    } else {
        let os = ordered_by_id(data.events@, cands);
        let ws = weights_of(s, data, os);
        let k = weighted_index(ws, s.rolls.below_value(sum_of(ws) as nat) as int);
        (
            Some(
                PendingEvent {
                    template_id: data.events@[os[k] as int].id,
                    rolled_month_clock: s.month_clock,
                },
            ),
            SimState { rolls: s.rolls.advanced(), last_event_month_clock: s.month_clock, ..s },
        )
    }
}

fn legacy_modifier_of(t: &EventTemplate, legacy: &String) -> (r: i64)
    ensures
        r == legacy_modifier(*t, legacy@),
{
    let mods = &t.legacy_weight_modifiers;
    let mut i: usize = 0;
    while i < mods.len()
        invariant
            i <= mods.len(),
            mods@ == t.legacy_weight_modifiers@,
            modifier_from(mods@, legacy@, 0) == modifier_from(mods@, legacy@, i as int),
        decreases mods.len() - i,
    {
        if crate::util::same(&mods[i].0, legacy) {
            assert(modifier_from(mods@, legacy@, i as int) == Some(i as int));
            return mods[i].1;
        }
        i = i + 1;
    }
    ONE
}

proof fn lemma_modifier_from(mods: Seq<(String, i64)>, legacy: Seq<char>, start: int)
    requires
        0 <= start,
    ensures
        modifier_from(mods, legacy, start) matches Some(i) ==> start <= i < mods.len(),
    decreases mods.len() - start,
{
    if start < mods.len() && mods[start].0@ != legacy {
        lemma_modifier_from(mods, legacy, start + 1);
    }
}

fn pick_weighted(sim: &mut SimState, data: &GameData, cands: &Vec<usize>) -> (r: Option<PendingEvent>)
    requires
        old(sim).wf(),
        crate::subsystems::defs_ok(data.subsystems@),
        events_ok(*data),
        cands.len() <= data.events.len(),
        forall|k: int| 0 <= k < cands.len() ==> (#[trigger] cands@[k]) < data.events.len(),
    ensures
        (r, *final(sim)) == picked(*old(sim), *data, cands@),
{
    if cands.len() == 0 {
        return None;
    }
    let sorted = sort_by_id(data, cands);
    proof {
        lemma_ordered_members(data.events@, cands@);
        assert forall|k: int| 0 <= k < sorted.len() implies (#[trigger] sorted@[k]) < data.events.len() by {
            assert(cands@.contains(ordered_by_id(data.events@, cands@)[k]));
        }
    }
    let cands = &sorted;
    let ghost ws = weights_of(*sim, *data, cands@);
    let mut weights: Vec<u64> = Vec::new();
    let mut total: u64 = 0;
    let mut k: usize = 0;
    while k < cands.len()
        invariant
            k <= cands.len() <= data.events.len() <= 1_000_000,
            ws == weights_of(*sim, *data, cands@),
            sim.wf(),
            crate::subsystems::defs_ok(data.subsystems@),
            events_ok(*data),
            forall|j: int| 0 <= j < cands.len() ==> (#[trigger] cands@[j]) < data.events.len(),
            weights.len() == k,
            forall|j: int| 0 <= j < k ==> #[trigger] weights@[j] as int == ws[j],
            total as int == sum_of(ws.subrange(0, k as int)),
            total <= BOUND * k,
        decreases cands.len() - k,
    {
        let t = &data.events[cands[k]];
        let m = legacy_modifier_of(t, &sim.legacy.legacy_id);
        proof {
            lemma_modifier_from(t.legacy_weight_modifiers@, sim.legacy.legacy_id@, 0);
            match modifier_from(t.legacy_weight_modifiers@, sim.legacy.legacy_id@, 0) {
                Some(j) => {
                    assert(0 <= (data.events@[cands@[k as int] as int].legacy_weight_modifiers@[j]).1 <= BOUND);
                },
                None => {},
            }
        }
        let f = crate::subsystems::family_weight_factor(sim, data, &t.family);
        let w = mul_frac(m, f);
        proof {
            assert(ws.subrange(0, k + 1).drop_last() =~= ws.subrange(0, k as int));
            assert(ws[k as int] == w);
        }
        weights.push(w as u64);
        total = total + w as u64;
        k = k + 1;
    }
    proof {
        assert(ws.subrange(0, cands.len() as int) =~= ws);
    }
    let roll0 = sim.rolls.below_u64(total);
    let mut roll = roll0;
    let mut chosen: usize = 0;
    let mut i: usize = 0;
    while i < weights.len()
        invariant_except_break
            pick_from(ws, roll0 as int, 0) == pick_from(ws, roll as int, i as int),
            chosen == 0,
        invariant
            i <= weights.len() == ws.len(),
            forall|j: int| 0 <= j < weights.len() ==> #[trigger] weights@[j] as int == ws[j],
        ensures
            weighted_index(ws, roll0 as int) == chosen as int,
        decreases weights.len() - i,
    {
        if roll < weights[i] {
            chosen = i;
            break;
        }
        roll = roll - weights[i];
        i = i + 1;
    }
    proof {
        lemma_pick_from(ws, roll0 as int, 0);
    }
    sim.last_event_month_clock = sim.month_clock;
    Some(
        PendingEvent {
            template_id: data.events[cands[chosen]].id.clone(),
            rolled_month_clock: sim.month_clock,
        },
    )
}

} // verus!

verus! {

/// Whole years since the last event fired.
pub open spec fn years_since_event(sim: SimState) -> int {
    (if sim.month_clock >= sim.last_event_month_clock {
        sim.month_clock - sim.last_event_month_clock
    } else {
        0
    }) / 12
}

/// The charter's progress, zero without a charter.
pub open spec fn progress_of(sim: SimState) -> int {
    match sim.contract {
        Some(c) => c.progress_spec(),
        None => 0,
    }
}

/// The chance an event fires this month: the yearly chance spread over
/// twelve months.
pub open spec fn monthly_event_chance(sim: SimState, config: GameConfig) -> int {
    crate::fixed::tdiv(chance_of_event(config, years_since_event(sim) as u32, progress_of(sim)), 12)
}

/// The category a roll lands on among the four weights (crisis when none).
pub open spec fn category_at(ws: Seq<int>, roll: int) -> EventCategory {
    match pick_from(ws, roll, 0) {
        Some(k) => if k == 1 {
            EventCategory::GenerationalChallenge
        } else if k == 2 {
            EventCategory::MissionMilestone
        } else if k == 3 {
            EventCategory::LegacyMoment
        } else {
            EventCategory::ImmediateCrisis
        },
        None => EventCategory::ImmediateCrisis,
    }
}

/// The catalog indices, among the first `n`, of templates of category `cat`
/// whose gates are open.
pub open spec fn of_category(sim: SimState, data: GameData, cat: EventCategory, n: int) -> Seq<usize>
    decreases n,
{
    if n <= 0 {
        Seq::empty()
    } else if data.events@[n - 1].category == cat && gate_open(sim, data.events@[n - 1]) {
        of_category(sim, data, cat, n - 1).push((n - 1) as usize)
    } else {
        of_category(sim, data, cat, n - 1)
    }
}

/// The catalog indices, among the first `n`, of templates of family `fam`
/// whose gates are open.
pub open spec fn of_family(sim: SimState, data: GameData, fam: Seq<char>, n: int) -> Seq<usize>
    decreases n,
{
    if n <= 0 {
        Seq::empty()
    } else if data.events@[n - 1].family@ == fam && gate_open(sim, data.events@[n - 1]) {
        of_family(sim, data, fam, n - 1).push((n - 1) as usize)
    } else {
        of_family(sim, data, fam, n - 1)
    }
}

proof fn lemma_of_category(sim: SimState, data: GameData, cat: EventCategory, n: int)
    requires
        0 <= n <= data.events.len(),
    ensures
        of_category(sim, data, cat, n).len() <= n,
        forall|k: int|
            0 <= k < of_category(sim, data, cat, n).len() ==> (#[trigger] of_category(sim, data, cat, n)[k])
                < n,
    decreases n,
{
    if n > 0 {
        lemma_of_category(sim, data, cat, n - 1);
        let prev = of_category(sim, data, cat, n - 1);
        assert forall|k: int| 0 <= k < of_category(sim, data, cat, n).len() implies (
        #[trigger] of_category(sim, data, cat, n)[k]) < n by {
            if k < prev.len() {
                assert(of_category(sim, data, cat, n)[k] == prev[k]);
            }
        }
    }
}

proof fn lemma_of_family(sim: SimState, data: GameData, fam: Seq<char>, n: int)
    requires
        0 <= n <= data.events.len(),
    ensures
        of_family(sim, data, fam, n).len() <= n,
        forall|k: int|
            0 <= k < of_family(sim, data, fam, n).len() ==> (#[trigger] of_family(sim, data, fam, n)[k])
                < n,
    decreases n,
{
    if n > 0 {
        lemma_of_family(sim, data, fam, n - 1);
        let prev = of_family(sim, data, fam, n - 1);
        assert forall|k: int| 0 <= k < of_family(sim, data, fam, n).len() implies (
        #[trigger] of_family(sim, data, fam, n)[k]) < n by {
            if k < prev.len() {
                assert(of_family(sim, data, fam, n)[k] == prev[k]);
            }
        }
    }
}

fn category_candidates(sim: &SimState, data: &GameData, cat: EventCategory) -> (r: Vec<usize>)
    ensures
        r@ == of_category(*sim, *data, cat, data.events.len() as int),
        r.len() <= data.events.len(),
        forall|k: int| 0 <= k < r.len() ==> (#[trigger] r@[k]) < data.events.len(),
{
    let mut r: Vec<usize> = Vec::new();
    let mut i: usize = 0;
    while i < data.events.len()
        invariant
            i <= data.events.len(),
            r@ == of_category(*sim, *data, cat, i as int),
        decreases data.events.len() - i,
    {
        let t = &data.events[i];
        if t.category == cat && passes_gate(sim, t) {
            r.push(i);
        }
        i = i + 1;
    }
    proof {
        lemma_of_category(*sim, *data, cat, data.events.len() as int);
    }
    r
}

fn family_candidates(sim: &SimState, data: &GameData, family: &str) -> (r: Vec<usize>)
    ensures
        r@ == of_family(*sim, *data, family@, data.events.len() as int),
        r.len() <= data.events.len(),
        forall|k: int| 0 <= k < r.len() ==> (#[trigger] r@[k]) < data.events.len(),
{
    let key = family.to_owned();
    let mut r: Vec<usize> = Vec::new();
    let mut i: usize = 0;
    while i < data.events.len()
        invariant
            i <= data.events.len(),
            key@ == family@,
            r@ == of_family(*sim, *data, family@, i as int),
        decreases data.events.len() - i,
    {
        let t = &data.events[i];
        if crate::util::same(&t.family, &key) && passes_gate(sim, t) {
            r.push(i);
        }
        i = i + 1;
    }
    proof {
        lemma_of_family(*sim, *data, family@, data.events.len() as int);
    }
    r
}

/// What a month's reactive roll gives: one draw against the month's event
/// chance; on a hit, one draw for the category by its weight and a weighted
/// pick among that category's cleared events; the ship as the draws leave it.
pub open spec fn rolled_event(s: SimState, data: GameData) -> (Option<PendingEvent>, SimState) {
    let r0 = s.rolls;
    if !r0.chance_value(monthly_event_chance(s, data.config)) {
        (None, SimState { rolls: r0.advanced(), ..s })
    } else {
        let ws = category_weight_seq(s, data.config);
        let cat = category_at(ws, r0.advanced().below_value(sum_of(ws) as nat) as int);
        let s2 = SimState { rolls: r0.advanced().advanced(), ..s };
        picked(s2, data, of_category(s2, data, cat, data.events.len() as int))
    }
}

/// Roll for a reactive event: one draw against the monthly chance; on a hit
/// one draw picks a category by weight, and a weighted pick among that
/// category's gate-cleared templates names the event. Returns the pending
/// event without applying anything.
pub fn roll_event(sim: &mut SimState, data: &GameData) -> (r: Option<PendingEvent>)
    requires
        old(sim).wf(),
        charter_ok(*old(sim)),
        data.config.wf(),
        crate::subsystems::defs_ok(data.subsystems@),
        events_ok(*data),
    ensures
        (r, *final(sim)) == rolled_event(*old(sim), *data),
{
    let progress: i64 = match &sim.contract {
        Some(c) => c.progress(),
        None => 0,
    };
    let gap: u32 = if sim.month_clock >= sim.last_event_month_clock {
        sim.month_clock - sim.last_event_month_clock
    } else {
        0
    };
    let yearly = event_chance(&data.config, gap / 12, progress);
    let monthly = if yearly >= 0 {
        yearly / 12
    } else {
        -((-yearly) / 12)
    };
    if !sim.rolls.chance(monthly) {
        return None;
    }
    let ghost s1 = *sim;
    let weights = category_weights(sim, &data.config);
    let ghost ws = category_weight_seq(*old(sim), data.config);
    assert(category_weight_seq(s1, data.config) == ws);
    let total: i64 = weights[0].1 + weights[1].1 + weights[2].1 + weights[3].1;
    proof {
        reveal_with_fuel(sum_of, 5);
        assert(ws.drop_last().drop_last().drop_last().drop_last() =~= Seq::<int>::empty());
        assert(total == sum_of(ws));
    }
    let roll0 = sim.rolls.below_u64(total as u64);
    let mut roll = roll0 as i64;
    let mut category = EventCategory::ImmediateCrisis;
    let mut k: usize = 0;
    while k < 4
        invariant_except_break
            pick_from(ws, roll0 as int, 0) == pick_from(ws, roll as int, k as int),
            category == EventCategory::ImmediateCrisis,
        invariant
            k <= 4,
            ws.len() == 4,
            weights@.len() == 4,
            weights@[0].0 == EventCategory::ImmediateCrisis,
            weights@[1].0 == EventCategory::GenerationalChallenge,
            weights@[2].0 == EventCategory::MissionMilestone,
            weights@[3].0 == EventCategory::LegacyMoment,
            forall|j: int| 0 <= j < 4 ==> (#[trigger] weights@[j]).1 as int == ws[j],
            forall|j: int| 0 <= j < 4 ==> 0 <= #[trigger] ws[j] <= BOUND + 2_000_000,
            0 <= roll <= roll0,
            roll0 < total,
        ensures
            category == category_at(ws, roll0 as int),
        decreases 4 - k,
    {
        if roll < weights[k].1 {
            category = weights[k].0;
            break;
        }
        roll = roll - weights[k].1;
        k = k + 1;
    }
    let cands = category_candidates(sim, data, category);
    pick_weighted(sim, data, &cands)
}

/// Roll a scheduled beat's event: no chance roll — a beat always fires —
/// only a weighted pick among the templates of `family` whose gates are open; none
/// (and no draw) when the family is over-gated.
pub fn roll_event_in_family(sim: &mut SimState, data: &GameData, family: &str) -> (r: Option<PendingEvent>)
    requires
        old(sim).wf(),
        crate::subsystems::defs_ok(data.subsystems@),
        events_ok(*data),
    ensures
        (r, *final(sim)) == picked(
            *old(sim),
            *data,
            of_family(*old(sim), *data, family@, data.events.len() as int),
        ),
{
    let cands = family_candidates(sim, data, family);
    pick_weighted(sim, data, &cands)
}

} // verus!

verus! {

/// The band of head-count change choice `outcome_index` may land, signed:
/// the choice's change as the buffering module softens it, ranged as
/// [`band`] says — the same value `apply_outcome` rolls within. None for an
/// index past the choices or a change small enough to show exactly.
pub fn outcome_pop_impact_range(
    sim: &SimState,
    data: &GameData,
    template: &EventTemplate,
    outcome_index: usize,
) -> (r: Option<(i64, i64)>)
    requires
        sim.wf(),
        data.config.wf(),
        crate::subsystems::defs_ok(data.subsystems@),
    ensures
        outcome_index >= template.outcomes.len() ==> r is None,
        outcome_index < template.outcomes.len() ==> {
            let o = template.outcomes@[outcome_index as int];
            let f = crate::subsystems::harm_factor(*sim, *data, template.family@);
            let count = crate::subsystems::soft_population(o.population_delta, f).count;
            match band(count as int, data.config.real_time) {
                Some((lo, hi)) => r == Some((lo as i64, hi as i64)),
                None => r is None,
            }
        },
{
    if outcome_index >= template.outcomes.len() {
        return None;
    }
    let o = &template.outcomes[outcome_index];
    let (_, _, population) = crate::subsystems::buffered_deltas(
        sim,
        data,
        &template.family,
        o.resource_delta,
        o.ship_delta,
        o.population_delta,
    );
    impact_range(population.count as i64, data.config.real_time)
}

} // verus!
