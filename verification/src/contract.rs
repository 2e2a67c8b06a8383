//! Charters: success scoring, availability, progression, and rewards.

use vstd::prelude::*;

use crate::config::{FlavorConfig, GameConfig};
use crate::data::{
    ContractPhase, ContractTemplate, MetricKind, MilestoneDef, PhaseSegment, ReputationGate, ScheduledBeat,
    SuccessMetric,
};
use crate::deltas::ResourceDelta;
use crate::effects::{
    apply_approval_deltas, apply_reputation_deltas, apply_subsystem_deltas, approvals_after,
    rep_after, subs_after,
};
use crate::fixed::{clamp, clamp_i128, scale, tdiv, tdiv_i128, ONE};
use crate::queries::{faction_aboard, rep_value};
use crate::state::{ActiveContract, MetricState, MilestoneState, SimState};
use crate::util::{all_in, any_in, contains_all, contains_any, is_blank, join3, same};

verus! {

/// How well a charter concluded.
#[derive(Debug, Clone, Copy, PartialEq, Eq, Structural)]
pub enum SuccessLevel {
    Complete,
    Partial,
    Pyrrhic,
    Failure,
}

/// A level's display name.
pub open spec fn level_label(l: SuccessLevel) -> Seq<char> {
    match l {
        SuccessLevel::Complete => "Complete"@,
        SuccessLevel::Partial => "Partial"@,
        SuccessLevel::Pyrrhic => "Pyrrhic"@,
        SuccessLevel::Failure => "Failure"@,
    }
}

impl SuccessLevel {
    /// The level's display name (see [`level_label`]).
    pub fn label(self) -> (s: &'static str)
        ensures
            s@ == level_label(self),
    {
        match self {
            SuccessLevel::Complete => "Complete",
            SuccessLevel::Partial => "Partial",
            SuccessLevel::Pyrrhic => "Pyrrhic",
            SuccessLevel::Failure => "Failure",
        }
    }
}

/// A metric's share of the score: `min(1, current / target) × weight`
/// (a non-positive target counts as met).
pub open spec fn metric_term(m: MetricState) -> int {
    let r = if m.target <= 0 {
        ONE as int
    } else {
        let q = tdiv(m.current * ONE, m.target as int);
        if q < ONE {
            q
        } else {
            ONE as int
        }
    };
    scale(r, m.weight as int)
}

/// The score of the first `n` metrics.
pub open spec fn score_of(ms: Seq<MetricState>, n: int) -> int
    decreases n,
{
    if n <= 0 {
        0
    } else {
        score_of(ms, n - 1) + metric_term(ms[n - 1])
    }
}

/// The band a score falls in.
pub open spec fn level_of(score: int) -> SuccessLevel {
    if score >= 900_000 {
        SuccessLevel::Complete
    } else if score >= 700_000 {
        SuccessLevel::Partial
    } else if score >= 400_000 {
        SuccessLevel::Pyrrhic
    } else {
        SuccessLevel::Failure
    }
}

/// Metrics whose arithmetic stays in range: progress non-negative, weight a
/// signed fraction.
pub open spec fn metrics_ok(ms: Seq<MetricState>) -> bool {
    forall|i: int| 0 <= i < ms.len() ==> (#[trigger] ms[i]).current >= 0 && -ONE <= ms[i].weight <= ONE
}

proof fn lemma_score_bounds(ms: Seq<MetricState>, n: int)
    requires
        0 <= n <= ms.len(),
        metrics_ok(ms),
    ensures
        -ONE * n <= score_of(ms, n) <= ONE * n,
    decreases n,
{
    if n > 0 {
        lemma_score_bounds(ms, n - 1);
        lemma_term_bounds(ms[n - 1]);
    }
}

proof fn lemma_term_bounds(m: MetricState)
    requires
        m.current >= 0,
        -ONE <= m.weight <= ONE,
    ensures
        -ONE <= metric_term(m) <= ONE,
{
    let r = if m.target <= 0 {
        ONE as int
    } else {
        let q = tdiv(m.current * ONE, m.target as int);
        if q < ONE {
            q
        } else {
            ONE as int
        }
    };
    if m.target > 0 {
        let c = m.current * ONE;
        assert(c >= 0) by (nonlinear_arith)
            requires
                m.current >= 0,
                c == m.current * ONE,
        ;
        assert(c / (m.target as int) >= 0) by (nonlinear_arith)
            requires
                c >= 0,
                m.target > 0,
        ;
    }
    assert(0 <= r <= ONE);
    let w = m.weight as int;
    let p = r * w;
    assert(-ONE * ONE <= p <= ONE * ONE) by (nonlinear_arith)
        requires
            0 <= r <= ONE,
            -ONE <= w <= ONE,
            p == r * w,
    ;
    if p >= 0 {
        assert(p / (ONE as int) <= ONE) by (nonlinear_arith)
            requires
                0 <= p <= ONE * ONE,
        ;
    } else {
        assert((-p) / (ONE as int) <= ONE) by (nonlinear_arith)
            requires
                0 <= -p <= ONE * ONE,
        ;
    }
}

/// `Σ min(1, current/target) × weight`, banded: ≥ 0.9 Complete, ≥ 0.7
/// Partial, ≥ 0.4 Pyrrhic, else Failure.
pub fn score_success(metrics: &Vec<MetricState>) -> (res: (i64, SuccessLevel))
    requires
        metrics_ok(metrics@),
        metrics.len() <= 0x1_0000_0000,
    ensures
        res.0 == score_of(metrics@, metrics.len() as int),
        res.1 == level_of(res.0 as int),
{
    let mut score: i128 = 0;
    let mut i: usize = 0;
    while i < metrics.len()
        invariant
            i <= metrics.len(),
            metrics.len() <= 0x1_0000_0000,
            metrics_ok(metrics@),
            score == score_of(metrics@, i as int),
            -1_000_000 * i <= score <= 1_000_000 * i,
        decreases metrics.len() - i,
    {
        let m = &metrics[i];
        proof {
            assert(metrics@[i as int].current >= 0 && -ONE <= metrics@[i as int].weight <= ONE);
            lemma_term_bounds(*m);
        }
        let r: i64 = if m.target <= 0 {
            ONE
        } else {
            let q = tdiv_i128((m.current as i128) * (ONE as i128), m.target as i128);
            if q < (ONE as i128) {
                q as i64
            } else {
                ONE
            }
        };
        let term = tdiv_i128((r as i128) * (m.weight as i128), ONE as i128);
        assert(term == metric_term(*m));
        assert(-ONE <= term <= ONE);
        assert(score_of(metrics@, (i + 1) as int) == score_of(metrics@, i as int) + metric_term(
            metrics@[i as int],
        ));
        score = score + term;
        i = i + 1;
    }
    proof {
        lemma_score_bounds(metrics@, metrics.len() as int);
    }
    let s = score as i64;
    let level = if s >= 900_000 {
        SuccessLevel::Complete
    } else if s >= 700_000 {
        SuccessLevel::Partial
    } else if s >= 400_000 {
        SuccessLevel::Pyrrhic
    } else {
        SuccessLevel::Failure
    };
    (s, level)
}

/// Every people named is aboard.
pub open spec fn all_aboard(sim: SimState, ids: Seq<String>) -> bool {
    forall|i: int| 0 <= i < ids.len() ==> faction_aboard(sim.factions@, #[trigger] ids[i]@)
}

/// Every reputation floor is met.
pub open spec fn floors_met(sim: SimState, gs: Seq<ReputationGate>) -> bool {
    forall|i: int| 0 <= i < gs.len() ==> rep_value(sim.reputation@, #[trigger] gs[i].id@) >= gs[i].threshold
}

/// Every reputation ceiling is respected.
pub open spec fn ceilings_met(sim: SimState, gs: Seq<ReputationGate>) -> bool {
    forall|i: int| 0 <= i < gs.len() ==> rep_value(sim.reputation@, #[trigger] gs[i].id@) <= gs[i].threshold
}

/// Whether a charter's in-world gate is open: its peoples aboard, its
/// required deeds on record, no forbidden deed on record, and the ship's
/// reputation within its floors and ceilings.
pub open spec fn in_world_gate(sim: SimState, t: ContractTemplate) -> bool {
    &&& all_aboard(sim, t.requires_faction_aboard@)
    &&& all_in(t.requires_consequence@, sim.consequences@)
    &&& !any_in(t.forbidden_consequence@, sim.consequences@)
    &&& floors_met(sim, t.min_reputation@)
    &&& ceilings_met(sim, t.max_reputation@)
}

/// Whether every named people is aboard.
pub fn all_factions_aboard(sim: &SimState, ids: &Vec<String>) -> (r: bool)
    ensures
        r == all_aboard(*sim, ids@),
{
    let mut i: usize = 0;
    while i < ids.len()
        invariant
            i <= ids.len(),
            forall|j: int| 0 <= j < i ==> faction_aboard(sim.factions@, #[trigger] ids@[j]@),
        decreases ids.len() - i,
    {
        if !sim.is_faction_aboard(ids[i].as_str()) {
            return false;
        }
        i = i + 1;
    }
    true
}

/// Whether every reputation floor is met.
pub fn reputation_floors_met(sim: &SimState, gs: &Vec<ReputationGate>) -> (r: bool)
    ensures
        r == floors_met(*sim, gs@),
{
    let mut i: usize = 0;
    while i < gs.len()
        invariant
            i <= gs.len(),
            forall|j: int| 0 <= j < i ==> rep_value(sim.reputation@, #[trigger] gs@[j].id@) >= gs@[j].threshold,
        decreases gs.len() - i,
    {
        if sim.reputation(gs[i].id.as_str()) < gs[i].threshold {
            return false;
        }
        i = i + 1;
    }
    true
}

/// Whether every reputation ceiling is respected.
pub fn reputation_ceilings_met(sim: &SimState, gs: &Vec<ReputationGate>) -> (r: bool)
    ensures
        r == ceilings_met(*sim, gs@),
{
    let mut i: usize = 0;
    while i < gs.len()
        invariant
            i <= gs.len(),
            forall|j: int| 0 <= j < i ==> rep_value(sim.reputation@, #[trigger] gs@[j].id@) <= gs@[j].threshold,
        decreases gs.len() - i,
    {
        if sim.reputation(gs[i].id.as_str()) > gs[i].threshold {
            return false;
        }
        i = i + 1;
    }
    true
}

/// See [`in_world_gate`].
pub fn meets_in_world_gate(sim: &SimState, template: &ContractTemplate) -> (r: bool)
    ensures
        r == in_world_gate(*sim, *template),
{
    all_factions_aboard(sim, &template.requires_faction_aboard) && contains_all(
        &template.requires_consequence,
        &sim.consequences,
    ) && !contains_any(&template.forbidden_consequence, &sim.consequences)
        && reputation_floors_met(sim, &template.min_reputation) && reputation_ceilings_met(
        sim,
        &template.max_reputation,
    )
}

/// A delta that changes nothing.
pub open spec fn no_resources(d: ResourceDelta) -> bool {
    d.credits == 0 && d.energy == 0 && d.minerals == 0 && d.food == 0 && d.influence == 0
}

/// A charter that leaves no lasting reward.
pub open spec fn reward_is_none(t: ContractTemplate) -> bool {
    let r = t.completion_reward;
    &&& no_resources(r.resource)
    &&& r.population.count == 0 && r.population.morale == 0 && r.population.unity == 0
        && r.population.stability == 0 && r.population.legacy_loyalty == 0
        && r.population.adaptation == 0 && r.population.cultural_drift == 0
    &&& r.subsystem_deltas.len() == 0
    &&& r.reputation_deltas.len() == 0
    &&& r.faction_approval_deltas.len() == 0
    &&& r.log@.len() == 0
}

fn completion_reward_is_none(t: &ContractTemplate) -> (r: bool)
    ensures
        r == reward_is_none(*t),
{
    let r = &t.completion_reward;
    let d = &r.resource;
    let p = &r.population;
    d.credits == 0 && d.energy == 0 && d.minerals == 0 && d.food == 0 && d.influence == 0
        && p.count == 0 && p.morale == 0 && p.unity == 0 && p.stability == 0 && p.legacy_loyalty
        == 0 && p.adaptation == 0 && p.cultural_drift == 0 && r.subsystem_deltas.len() == 0
        && r.reputation_deltas.len() == 0 && r.faction_approval_deltas.len() == 0 && is_blank(&r.log)
}

/// Grant a charter's completion reward: resources and population, the
/// subsystem boons, the reputation it builds, and the goodwill of the aboard
/// peoples it served — all in order. Returns the narration line; `None`,
/// changing nothing, for a charter with no reward.
pub fn apply_completion_reward(sim: &mut SimState, template: &ContractTemplate) -> (line: Option<String>)
    ensures
        reward_is_none(*template) ==> line is None && *final(sim) == *old(sim),
        !reward_is_none(*template) ==> {
            let r = template.completion_reward;
            &&& line matches Some(l) && l@ == (if r.log@.len() == 0 {
                "The lessons of "@ + template.name@ + " stay with the ship."@
            } else {
                r.log@
            })
            &&& final(sim).resources == old(sim).resources.applied(r.resource)
            &&& final(sim).population == old(sim).population.applied(r.population)
            &&& final(sim).subsystems@ == subs_after(old(sim).subsystems@, r.subsystem_deltas@)
            &&& forall|key: Seq<char>|
                #[trigger] rep_value(final(sim).reputation@, key) == rep_after(
                    rep_value(old(sim).reputation@, key),
                    r.reputation_deltas@,
                    key,
                )
            &&& final(sim).factions@ == approvals_after(
                old(sim).factions@,
                r.faction_approval_deltas@,
            )
            &&& *final(sim) == (SimState {
                resources: final(sim).resources,
                population: final(sim).population,
                subsystems: final(sim).subsystems,
                reputation: final(sim).reputation,
                factions: final(sim).factions,
                ..*old(sim)
            })
        },
{
    proof {
        reveal_strlit("The lessons of ");
        reveal_strlit(" stay with the ship.");
    }
    if completion_reward_is_none(template) {
        return None;
    }
    let reward = &template.completion_reward;
    sim.resources.apply(&reward.resource);
    sim.population.apply(&reward.population);
    apply_subsystem_deltas(sim, &reward.subsystem_deltas);
    apply_reputation_deltas(sim, &reward.reputation_deltas);
    apply_approval_deltas(sim, &reward.faction_approval_deltas);
    Some(
        if is_blank(&reward.log) {
            join3("The lessons of ", template.name.as_str(), " stay with the ship.")
        } else {
            reward.log.clone()
        },
    )
}

/// A charter whose failure marks nothing.
pub open spec fn abandonment_is_none(t: ContractTemplate) -> bool {
    t.abandonment.reputation_deltas.len() == 0 && t.abandonment.log@.len() == 0
}

/// Mark the ship's name for a charter it did not see through: the
/// reputation deltas, in order. Returns the narration line; `None`,
/// changing nothing, for a charter whose failure marks nothing.
pub fn apply_abandonment(sim: &mut SimState, template: &ContractTemplate) -> (line: Option<String>)
    ensures
        abandonment_is_none(*template) ==> line is None && *final(sim) == *old(sim),
        !abandonment_is_none(*template) ==> {
            let ab = template.abandonment;
            &&& line matches Some(l) && l@ == (if ab.log@.len() == 0 {
                "Word travels the dark that the ship gave up the "@ + template.name@ + "."@
            } else {
                ab.log@
            })
            &&& forall|key: Seq<char>|
                #[trigger] rep_value(final(sim).reputation@, key) == rep_after(
                    rep_value(old(sim).reputation@, key),
                    ab.reputation_deltas@,
                    key,
                )
            &&& *final(sim) == (SimState { reputation: final(sim).reputation, ..*old(sim) })
        },
{
    proof {
        reveal_strlit("Word travels the dark that the ship gave up the ");
        reveal_strlit(".");
    }
    let ab = &template.abandonment;
    if ab.reputation_deltas.len() == 0 && is_blank(&ab.log) {
        return None;
    }
    apply_reputation_deltas(sim, &ab.reputation_deltas);
    Some(
        if is_blank(&ab.log) {
            join3("Word travels the dark that the ship gave up the ", template.name.as_str(), ".")
        } else {
            ab.log.clone()
        },
    )
}

// ---------------------------------------------------------------- the timeline

/// Months in one segment.
pub open spec fn seg_months(s: PhaseSegment) -> int {
    s.years * 12
}

/// Months in the first `n` segments.
pub open spec fn months_before(segs: Seq<PhaseSegment>, n: int) -> int
    decreases n,
{
    if n <= 0 {
        0
    } else {
        months_before(segs, n - 1) + seg_months(segs[n - 1])
    }
}

/// Months in the whole voyage.
pub open spec fn months_total(segs: Seq<PhaseSegment>) -> int {
    months_before(segs, segs.len() as int)
}

/// Months of Operation among the first `n` segments.
pub open spec fn op_months_before(segs: Seq<PhaseSegment>, n: int) -> int
    decreases n,
{
    if n <= 0 {
        0
    } else {
        op_months_before(segs, n - 1) + if segs[n - 1].kind == ContractPhase::Operation {
            seg_months(segs[n - 1])
        } else {
            0
        }
    }
}

/// The segment holding month index `t` (0-based), counting from `i`.
pub open spec fn locate(segs: Seq<PhaseSegment>, t: int, i: int) -> Option<int>
    decreases segs.len() - i,
{
    if i < 0 || i >= segs.len() {
        None
    } else if t < seg_months(segs[i]) {
        Some(i)
    } else {
        locate(segs, t - seg_months(segs[i]), i + 1)
    }
}

/// The (segment index, phase) at month `m` of the voyage: Preparation
/// before launch, then the authored segment holding month `m`, then
/// Completion past the last segment.
pub open spec fn phase_at(segs: Seq<PhaseSegment>, m: int) -> (int, ContractPhase) {
    if m <= 0 {
        (0, ContractPhase::Preparation)
    } else {
        match locate(segs, m - 1, 0) {
            Some(i) => (i, segs[i].kind),
            None => (segs.len() as int, ContractPhase::Completion),
        }
    }
}

/// The first Return segment.
pub open spec fn first_return(segs: Seq<PhaseSegment>, start: int) -> Option<int>
    decreases segs.len() - start,
{
    if start < 0 || start >= segs.len() {
        None
    } else if segs[start].kind == ContractPhase::Return {
        Some(start)
    } else {
        first_return(segs, start + 1)
    }
}

/// The segments of kind `phase` among the first `upto`.
pub open spec fn occurrences(phases: Seq<PhaseSegment>, upto: int, phase: ContractPhase) -> nat
    decreases upto,
{
    if upto <= 0 {
        0
    } else {
        occurrences(phases, upto - 1, phase) + if phases[upto - 1].kind == phase {
            1nat
        } else {
            0
        }
    }
}

/// How many times `phase` has been entered this voyage, counting the
/// current segment.
pub open spec fn occurrence_of(c: ActiveContract, phase: ContractPhase) -> nat {
    let upto = if c.phase_index < c.phases.len() {
        c.phase_index + 1
    } else {
        c.phases.len() as int
    };
    occurrences(c.phases@, upto, phase)
}

/// A voyage whose month arithmetic fits its counters.
pub open spec fn timeline_ok(c: ActiveContract) -> bool {
    months_total(c.phases@) <= u32::MAX
}

pub proof fn lemma_months_before_mono(segs: Seq<PhaseSegment>, a: int, b: int)
    requires
        0 <= a <= b <= segs.len(),
    ensures
        0 <= months_before(segs, a) <= months_before(segs, b),
        0 <= op_months_before(segs, a) <= op_months_before(segs, b),
        op_months_before(segs, b) <= months_before(segs, b),
    decreases b,
{
    if b > a {
        lemma_months_before_mono(segs, a, b - 1);
    } else if b > 0 {
        lemma_months_before_mono(segs, 0, b - 1);
    }
}

impl ActiveContract {
    /// Months from launch to the end of segment `n - 1`.
    pub fn segment_start(&self, n: usize) -> (r: u32)
        requires
            timeline_ok(*self),
            n <= self.phases.len(),
        ensures
            r == months_before(self.phases@, n as int),
    {
        let mut total: u32 = 0;
        let mut i: usize = 0;
        while i < n
            invariant
                i <= n <= self.phases.len(),
                timeline_ok(*self),
                total == months_before(self.phases@, i as int),
            decreases n - i,
        {
            proof {
                lemma_months_before_mono(self.phases@, (i + 1) as int, self.phases.len() as int);
            }
            total = total + self.phases[i].years * 12;
            i = i + 1;
        }
        total
    }

    /// Months in the whole voyage.
    pub fn total_months(&self) -> (r: u32)
        requires
            timeline_ok(*self),
        ensures
            r == months_total(self.phases@),
    {
        self.segment_start(self.phases.len())
    }

    /// Months spent on-station.
    pub fn operation_months(&self) -> (r: u32)
        requires
            timeline_ok(*self),
        ensures
            r == op_months_before(self.phases@, self.phases.len() as int),
    {
        let mut total: u32 = 0;
        let mut i: usize = 0;
        while i < self.phases.len()
            invariant
                i <= self.phases.len(),
                timeline_ok(*self),
                total == op_months_before(self.phases@, i as int),
            decreases self.phases.len() - i,
        {
            proof {
                lemma_months_before_mono(self.phases@, (i + 1) as int, self.phases.len() as int);
            }
            if self.phases[i].kind == ContractPhase::Operation {
                total = total + self.phases[i].years * 12;
            }
            i = i + 1;
        }
        total
    }

    /// The (segment, phase) at month `m`; see [`phase_at`].
    pub fn phase_at(&self, m: u32) -> (r: (usize, ContractPhase))
        requires
            timeline_ok(*self),
        ensures
            r.0 == phase_at(self.phases@, m as int).0,
            r.1 == phase_at(self.phases@, m as int).1,
    {
        if m == 0 {
            return (0, ContractPhase::Preparation);
        }
        let mut t: u32 = m - 1;
        let mut i: usize = 0;
        while i < self.phases.len()
            invariant
                i <= self.phases.len(),
                m >= 1,
                timeline_ok(*self),
                locate(self.phases@, (m - 1) as int, 0) == locate(self.phases@, t as int, i as int),
            decreases self.phases.len() - i,
        {
            proof {
                lemma_months_before_mono(self.phases@, (i + 1) as int, self.phases.len() as int);
                assert(seg_months(self.phases@[i as int]) <= u32::MAX) by {
                    assert(months_before(self.phases@, (i + 1) as int) == months_before(
                        self.phases@,
                        i as int,
                    ) + seg_months(self.phases@[i as int]));
                    lemma_months_before_mono(self.phases@, 0, i as int);
                }
            }
            let len = self.phases[i].years * 12;
            if t < len {
                assert(locate(self.phases@, t as int, i as int) == Some(i as int));
                assert(phase_at(self.phases@, m as int) == (i as int, self.phases@[i as int].kind));
                return (i, self.phases[i].kind);
            }
            t = t - len;
            i = i + 1;
        }
        (self.phases.len(), ContractPhase::Completion)
    }

    /// How many times `phase` has been entered this voyage: the segments of
    /// that kind up to and including the current one.
    pub fn phase_occurrence(&self, phase: ContractPhase) -> (r: usize)
        ensures
            r == occurrence_of(*self, phase),
    {
        let upto: usize = if self.phase_index < self.phases.len() {
            self.phase_index + 1
        } else {
            self.phases.len()
        };
        let mut n: usize = 0;
        let mut i: usize = 0;
        while i < upto
            invariant
                i <= upto <= self.phases.len(),
                upto == (if self.phase_index < self.phases.len() {
                    self.phase_index + 1
                } else {
                    self.phases.len() as int
                }),
                n == occurrences(self.phases@, i as int, phase),
                n <= i,
            decreases upto - i,
        {
            if self.phases[i].kind == phase {
                n = n + 1;
            }
            i = i + 1;
        }
        n
    }

    /// The first Return segment, if any.
    pub fn first_return_index(&self) -> (r: Option<usize>)
        ensures
            r matches Some(i) ==> first_return(self.phases@, 0) == Some(i as int) && i < self.phases.len(),
            r is None ==> first_return(self.phases@, 0) is None,
    {
        let mut i: usize = 0;
        while i < self.phases.len()
            invariant
                i <= self.phases.len(),
                first_return(self.phases@, 0) == first_return(self.phases@, i as int),
            decreases self.phases.len() - i,
        {
            if self.phases[i].kind == ContractPhase::Return {
                return Some(i);
            }
            i = i + 1;
        }
        None
    }

    /// Fraction of the objective banked: `min(1, progress / target)`, with a
    /// non-positive target counting as met.
    pub open spec fn objective_fraction_spec(self) -> int {
        if self.objective_target <= 0 || self.objective_progress >= self.objective_target {
            ONE as int
        } else if self.objective_progress <= 0 {
            0
        } else {
            (self.objective_progress * ONE) / (self.objective_target as int)
        }
    }

    /// See [`Self::objective_fraction_spec`].
    pub fn objective_fraction(&self) -> (r: i64)
        ensures
            r == self.objective_fraction_spec(),
            0 <= r <= ONE,
    {
        if self.objective_target <= 0 || self.objective_progress >= self.objective_target {
            ONE
        } else if self.objective_progress <= 0 {
            0
        } else {
            proof {
                let p = self.objective_progress as int;
                let t = self.objective_target as int;
                assert(0 <= (p * ONE) / t <= ONE) by (nonlinear_arith)
                    requires
                        0 < p < t,
                ;
            }
            ((self.objective_progress as i128) * (ONE as i128) / (self.objective_target as i128)) as i64
        }
    }

    /// Fraction of the voyage flown: months elapsed over total, capped at one
    /// (a voyage of no months counts as flown).
    pub open spec fn progress_spec(self) -> int {
        let total = months_total(self.phases@);
        if total == 0 || self.months_elapsed >= total {
            ONE as int
        } else {
            (self.months_elapsed * ONE) / total
        }
    }

    /// See [`Self::progress_spec`].
    pub fn progress(&self) -> (r: i64)
        requires
            timeline_ok(*self),
        ensures
            r == self.progress_spec(),
            0 <= r <= ONE,
    {
        let total = self.total_months();
        if total == 0 || self.months_elapsed >= total {
            ONE
        } else {
            proof {
                let m = self.months_elapsed as int;
                let t = total as int;
                assert(0 <= (m * ONE) / t <= ONE) by (nonlinear_arith)
                    requires
                        0 <= m < t,
                ;
            }
            ((self.months_elapsed as i128) * (ONE as i128) / (total as i128)) as i64
        }
    }

    /// Provisioning discipline: the fraction of elapsed months each upkeep
    /// store held above its crisis line (one before any month has passed).
    pub open spec fn upkeep_spec(self) -> int {
        if self.months_elapsed == 0 {
            ONE as int
        } else {
            ((self.healthy_food_months + self.healthy_energy_months) * ONE) / (2 * self.months_elapsed)
        }
    }

    /// See [`Self::upkeep_spec`].
    pub fn upkeep_health(&self) -> (r: i64)
        requires
            self.healthy_food_months <= self.months_elapsed,
            self.healthy_energy_months <= self.months_elapsed,
        ensures
            r == self.upkeep_spec(),
            0 <= r <= ONE,
    {
        if self.months_elapsed == 0 {
            ONE
        } else {
            let num: i128 = (self.healthy_food_months as i128) + (self.healthy_energy_months as i128);
            let den: i128 = 2 * (self.months_elapsed as i128);
            proof {
                let n = num as int;
                let d = den as int;
                assert(0 <= (n * ONE) / d <= ONE) by (nonlinear_arith)
                    requires
                        0 <= n <= d,
                        d > 0,
                ;
            }
            (num * (ONE as i128) / den) as i64
        }
    }
}

/// A new contract from `t`, launched now: Preparation, nothing accrued.
pub open spec fn started(t: ContractTemplate, sim: SimState, c: ActiveContract) -> bool {
    &&& c.template_id@ == t.id@
    &&& c.name@ == t.name@
    &&& c.objective == t.objective
    &&& c.target_duration_years == t.target_duration_years
    &&& c.months_elapsed == 0
    &&& c.phase == ContractPhase::Preparation
    &&& c.phases@ == t.phases@
    &&& c.phase_index == 0
    &&& c.metrics.len() == t.success_metrics.len()
    &&& forall|i: int|
        0 <= i < c.metrics.len() ==> {
            let m = #[trigger] c.metrics@[i];
            let d = t.success_metrics@[i];
            m.id@ == d.id@ && m.kind == d.kind && m.name@ == d.name@ && m.weight == d.weight
                && m.target == d.target && m.current == 0
        }
    &&& c.milestones.len() == t.milestones.len()
    &&& forall|i: int|
        0 <= i < c.milestones.len() ==> {
            let m = #[trigger] c.milestones@[i];
            let d = t.milestones@[i];
            m.id@ == d.id@ && m.name@ == d.name@ && m.progress_threshold == d.progress_threshold
                && !m.reached && m.reward == d.reward
        }
    &&& c.starting_population == sim.population.count
    &&& c.objective_target == t.objective_target
    &&& c.objective_unit@ == t.objective_unit@
    &&& c.objective_progress == 0
    &&& c.healthy_food_months == 0
    &&& c.healthy_energy_months == 0
    &&& c.tags.len() == t.tags.len()
    &&& forall|i: int| 0 <= i < c.tags.len() ==> (#[trigger] c.tags@[i])@ == t.tags@[i]@
    &&& c.hazard == t.hazard
    &&& c.objective_subsystem@ == t.objective_subsystem@
    &&& c.beats.len() == 0
    &&& c.drift_beats_fired == 0
    &&& c.adaptation_beats_fired == 0
    &&& c.crisis_beats_fired == 0
    &&& c.loyalty_beats_fired == 0
    &&& c.stability_beats_fired == 0
    &&& c.anniversaries_fired == 0
    &&& c.flourish_beats_fired == 0
    &&& c.objective_beats_fired == 0
    &&& !c.homecoming_beat_fired
    &&& !c.midvoyage_beat_fired
    &&& c.scheduled_beats.len() == t.scheduled_beats.len()
    &&& forall|i: int|
        0 <= i < c.scheduled_beats.len() ==> (#[trigger] c.scheduled_beats@[i]).at_year
            == t.scheduled_beats@[i].at_year && c.scheduled_beats@[i].template_id@
            == t.scheduled_beats@[i].template_id@
    &&& c.scheduled_beats_fired == 0
}

/// Instantiate an active contract from a template at the current state.
pub fn start_contract(template: &ContractTemplate, sim: &SimState) -> (c: ActiveContract)
    ensures
        started(*template, *sim, c),
{
    let mut metrics: Vec<MetricState> = Vec::new();
    let mut i: usize = 0;
    while i < template.success_metrics.len()
        invariant
            i <= template.success_metrics.len(),
            metrics.len() == i,
            forall|j: int|
                0 <= j < i ==> {
                    let m = #[trigger] metrics@[j];
                    let d = template.success_metrics@[j];
                    m.id@ == d.id@ && m.kind == d.kind && m.name@ == d.name@ && m.weight
                        == d.weight && m.target == d.target && m.current == 0
                },
        decreases template.success_metrics.len() - i,
    {
        let d: &SuccessMetric = &template.success_metrics[i];
        metrics.push(
            MetricState {
                id: d.id.clone(),
                kind: d.kind,
                name: d.name.clone(),
                weight: d.weight,
                target: d.target,
                current: 0,
            },
        );
        i = i + 1;
    }
    let mut milestones: Vec<MilestoneState> = Vec::new();
    let mut i: usize = 0;
    while i < template.milestones.len()
        invariant
            i <= template.milestones.len(),
            milestones.len() == i,
            forall|j: int|
                0 <= j < i ==> {
                    let m = #[trigger] milestones@[j];
                    let d = template.milestones@[j];
                    m.id@ == d.id@ && m.name@ == d.name@ && m.progress_threshold
                        == d.progress_threshold && !m.reached && m.reward == d.reward
                },
        decreases template.milestones.len() - i,
    {
        let d: &MilestoneDef = &template.milestones[i];
        milestones.push(
            MilestoneState {
                id: d.id.clone(),
                name: d.name.clone(),
                progress_threshold: d.progress_threshold,
                reached: false,
                reward: d.reward,
            },
        );
        i = i + 1;
    }
    let mut phases: Vec<PhaseSegment> = Vec::new();
    let mut i: usize = 0;
    while i < template.phases.len()
        invariant
            i <= template.phases.len(),
            phases@ == template.phases@.subrange(0, i as int),
        decreases template.phases.len() - i,
    {
        phases.push(template.phases[i]);
        proof {
            assert(template.phases@.subrange(0, (i + 1) as int) =~= template.phases@.subrange(
                0,
                i as int,
            ).push(template.phases@[i as int]));
        }
        i = i + 1;
    }
    proof {
        assert(template.phases@.subrange(0, template.phases.len() as int) =~= template.phases@);
    }
    let mut tags: Vec<String> = Vec::new();
    let mut i: usize = 0;
    while i < template.tags.len()
        invariant
            i <= template.tags.len(),
            tags.len() == i,
            forall|j: int| 0 <= j < i ==> (#[trigger] tags@[j])@ == template.tags@[j]@,
        decreases template.tags.len() - i,
    {
        tags.push(template.tags[i].clone());
        i = i + 1;
    }
    let mut scheduled: Vec<ScheduledBeat> = Vec::new();
    let mut i: usize = 0;
    while i < template.scheduled_beats.len()
        invariant
            i <= template.scheduled_beats.len(),
            scheduled.len() == i,
            forall|j: int|
                0 <= j < i ==> (#[trigger] scheduled@[j]).at_year == template.scheduled_beats@[j].at_year
                    && scheduled@[j].template_id@ == template.scheduled_beats@[j].template_id@,
        decreases template.scheduled_beats.len() - i,
    {
        let b = &template.scheduled_beats[i];
        scheduled.push(ScheduledBeat { at_year: b.at_year, template_id: b.template_id.clone() });
        i = i + 1;
    }
    ActiveContract {
        template_id: template.id.clone(),
        name: template.name.clone(),
        objective: template.objective,
        target_duration_years: template.target_duration_years,
        months_elapsed: 0,
        phase: ContractPhase::Preparation,
        phases,
        phase_index: 0,
        metrics,
        milestones,
        starting_population: sim.population.count,
        objective_target: template.objective_target,
        objective_unit: template.objective_unit.clone(),
        objective_progress: 0,
        healthy_food_months: 0,
        healthy_energy_months: 0,
        tags,
        hazard: template.hazard,
        objective_subsystem: template.objective_subsystem.clone(),
        beats: Vec::new(),
        drift_beats_fired: 0,
        adaptation_beats_fired: 0,
        crisis_beats_fired: 0,
        loyalty_beats_fired: 0,
        stability_beats_fired: 0,
        anniversaries_fired: 0,
        flourish_beats_fired: 0,
        objective_beats_fired: 0,
        homecoming_beat_fired: false,
        midvoyage_beat_fired: false,
        scheduled_beats: scheduled,
        scheduled_beats_fired: 0,
    }
}

/// Turn the ship for home early: jump to the start of the first Return
/// segment, freezing the objective where it stands. Refused (returning
/// false, changing nothing) without a contract, without a Return segment,
/// or when already in or past Return.
pub fn jump_to_return(sim: &mut SimState) -> (turned: bool)
    requires
        old(sim).contract matches Some(c) ==> timeline_ok(c),
    ensures
        match old(sim).contract {
            None => !turned && *final(sim) == *old(sim),
            Some(c) => match first_return(c.phases@, 0) {
                None => !turned && *final(sim) == *old(sim),
                Some(ri) => {
                    let start = months_before(c.phases@, ri);
                    if c.months_elapsed >= start {
                        !turned && *final(sim) == *old(sim)
                    } else {
                        &&& turned
                        &&& final(sim).contract == Some(
                            ActiveContract {
                                months_elapsed: start as u32,
                                phase_index: ri as usize,
                                phase: c.phases@[ri].kind,
                                ..c
                            },
                        )
                        &&& *final(sim) == (SimState { contract: final(sim).contract, ..*old(sim) })
                    }
                },
            },
        },
{
    let contract = match sim.contract.as_mut() {
        Some(c) => c,
        None => return false,
    };
    let return_index = match contract.first_return_index() {
        Some(i) => i,
        None => return false,
    };
    let return_start = contract.segment_start(return_index);
    if contract.months_elapsed >= return_start {
        return false;
    }
    contract.months_elapsed = return_start;
    contract.phase_index = return_index;
    contract.phase = contract.phases[return_index].kind;
    true
}

/// A reward scaled by objective completion, each resource rounded toward
/// zero: full pay at a met objective, none without objective work.
pub open spec fn prorated(reward: ResourceDelta, fraction: int) -> ResourceDelta {
    ResourceDelta {
        credits: scale(reward.credits as int, fraction) as i64,
        energy: scale(reward.energy as int, fraction) as i64,
        minerals: scale(reward.minerals as int, fraction) as i64,
        food: scale(reward.food as int, fraction) as i64,
        influence: scale(reward.influence as int, fraction) as i64,
    }
}

/// See [`prorated`].
pub fn prorated_reward(reward: &ResourceDelta, fraction: i64) -> (pay: ResourceDelta)
    requires
        0 <= fraction <= ONE,
    ensures
        pay == prorated(*reward, fraction as int),
{
    ResourceDelta {
        credits: crate::fixed::mul_frac(reward.credits, fraction),
        energy: crate::fixed::mul_frac(reward.energy, fraction),
        minerals: crate::fixed::mul_frac(reward.minerals, fraction),
        food: crate::fixed::mul_frac(reward.food, fraction),
        influence: crate::fixed::mul_frac(reward.influence, fraction),
    }
}

/// The pool key of a phase.
pub open spec fn phase_key(phase: ContractPhase) -> Seq<char> {
    match phase {
        ContractPhase::Preparation => "preparation"@,
        ContractPhase::Travel => "travel"@,
        ContractPhase::Operation => "operation"@,
        ContractPhase::Return => "return"@,
        ContractPhase::Completion => "completion"@,
    }
}

/// The built-in line for entering a phase.
pub open spec fn phase_fallback(phase: ContractPhase) -> Seq<char> {
    match phase {
        ContractPhase::Preparation => "Standing by for departure."@,
        ContractPhase::Travel => "Departure burn complete — the ship is underway."@,
        ContractPhase::Operation => "The ship makes station. On-site operations begin."@,
        ContractPhase::Return => "Objective work concluded — course set for home."@,
        ContractPhase::Completion => "The ship returns to its home berth."@,
    }
}

/// The first pool keyed `key`.
pub open spec fn pool_from(pools: Seq<(String, Vec<String>)>, key: Seq<char>, start: int) -> Option<int>
    decreases pools.len() - start,
{
    if start < 0 || start >= pools.len() {
        None
    } else if pools[start].0@ == key {
        Some(start)
    } else {
        pool_from(pools, key, start + 1)
    }
}

/// The line for entering `phase` on its `occurrence`-th time this voyage
/// (1-based): the pool's line at `(occurrence - 1) mod size`, or the built-in
/// line when the pool is missing or empty.
pub open spec fn phase_line(flavor: FlavorConfig, phase: ContractPhase, occurrence: nat) -> Seq<char> {
    match pool_from(flavor.phase_lines@, phase_key(phase), 0) {
        Some(p) => {
            let pool = flavor.phase_lines@[p].1@;
            if pool.len() > 0 {
                let k = if occurrence == 0 {
                    0
                } else {
                    (occurrence - 1) as nat
                };
                pool[(k % pool.len()) as int]@
            } else {
                phase_fallback(phase)
            }
        },
        None => phase_fallback(phase),
    }
}

fn phase_key_str(phase: ContractPhase) -> (s: &'static str)
    ensures
        s@ == phase_key(phase),
{
    proof {
        reveal_strlit("preparation");
        reveal_strlit("travel");
        reveal_strlit("operation");
        reveal_strlit("return");
        reveal_strlit("completion");
    }
    match phase {
        ContractPhase::Preparation => "preparation",
        ContractPhase::Travel => "travel",
        ContractPhase::Operation => "operation",
        ContractPhase::Return => "return",
        ContractPhase::Completion => "completion",
    }
}

fn fallback_line(phase: ContractPhase) -> (line: String)
    ensures
        line@ == phase_fallback(phase),
{
    proof {
        reveal_strlit("Standing by for departure.");
        reveal_strlit("Departure burn complete — the ship is underway.");
        reveal_strlit("The ship makes station. On-site operations begin.");
        reveal_strlit("Objective work concluded — course set for home.");
        reveal_strlit("The ship returns to its home berth.");
    }
    let fallback = match phase {
        ContractPhase::Preparation => "Standing by for departure.",
        ContractPhase::Travel => "Departure burn complete — the ship is underway.",
        ContractPhase::Operation => "The ship makes station. On-site operations begin.",
        ContractPhase::Return => "Objective work concluded — course set for home.",
        ContractPhase::Completion => "The ship returns to its home berth.",
    };
    fallback.to_owned()
}

/// See [`phase_line`].
pub fn phase_transition_line(flavor: &FlavorConfig, phase: ContractPhase, occurrence: usize) -> (line: String)
    ensures
        line@ == phase_line(*flavor, phase, occurrence as nat),
{
    let key = phase_key_str(phase).to_owned();
    let pools = &flavor.phase_lines;
    let mut i: usize = 0;
    while i < pools.len()
        invariant
            i <= pools.len(),
            pools@ == flavor.phase_lines@,
            key@ == phase_key(phase),
            pool_from(pools@, key@, 0) == pool_from(pools@, key@, i as int),
        decreases pools.len() - i,
    {
        if same(&pools[i].0, &key) {
            assert(pool_from(pools@, key@, i as int) == Some(i as int));
            let pool = &pools[i].1;
            if pool.len() > 0 {
                let k = if occurrence == 0 {
                    0
                } else {
                    occurrence - 1
                };
                assert(flavor.phase_lines@[i as int].1@ == pool@);
                assert(phase_line(*flavor, phase, occurrence as nat) == pool@[(k % pool.len()) as int]@);
                return pool[k % pool.len()].clone();
            }
            assert(flavor.phase_lines@[i as int].1@ == pool@);
            return fallback_line(phase);
        }
        i = i + 1;
    }
    fallback_line(phase)
}

// ---------------------------------------------------------------- one month of contract time

/// Everything one month of contract time produced.
#[derive(Debug)]
pub struct ContractProgress {
    pub reached_milestones: Vec<String>,
    /// Set when this month crossed into a new authored phase.
    pub phase_changed: Option<ContractPhase>,
    /// Set the month the contract reaches its full duration.
    pub completed: Option<(i64, SuccessLevel)>,
}

/// The rate the mission's key module allows: a pristine module works at
/// full rate, a degraded one slower (`1 - penalty × (1 - condition)`, floored
/// at zero); a charter with no key module (or a missing module) is unaffected.
pub open spec fn objective_rate(sim: SimState, c: ActiveContract, config: GameConfig) -> int {
    if c.objective_subsystem@.len() == 0 {
        ONE as int
    } else {
        let cond = match crate::keys::first(crate::queries::sub_keys(sim.subsystems@), c.objective_subsystem@) {
            Some(i) => sim.subsystems@[i].condition as int,
            None => ONE as int,
        };
        let r = ONE - scale(ONE - cond, config.subsystems.objective_condition_penalty as int);
        if r < 0 {
            0
        } else {
            r
        }
    }
}

/// The objective work one on-station month adds: the target spread over the
/// operation window, quickened by speed, slowed by a worn key module.
pub open spec fn objective_increment(c: ActiveContract, config: GameConfig, speed: i32, rate: int) -> int {
    let ops = op_months_before(c.phases@, c.phases.len() as int);
    let ops1 = if ops < 1 {
        1
    } else {
        ops
    };
    let sp = if speed < 0 {
        0
    } else {
        speed as int
    };
    let factor = ONE + sp * config.ship.contract_progress_per_speed;
    tdiv(c.objective_target * factor * rate, ops1 * ONE * ONE)
}

/// The contract's clock, upkeep tally, phase, and objective after one month.
pub open spec fn clock_after(c: ActiveContract, sim: SimState, config: GameConfig, speed: i32) -> ActiveContract {
    let m = (c.months_elapsed + 1) as u32;
    let (index, phase) = phase_at(c.phases@, m as int);
    let progress = if phase == ContractPhase::Operation {
        clamp(
            c.objective_progress + objective_increment(c, config, speed, objective_rate(sim, c, config)),
            i64::MIN as int,
            i64::MAX as int,
        ) as i64
    } else {
        c.objective_progress
    };
    ActiveContract {
        months_elapsed: m,
        healthy_food_months: (c.healthy_food_months + if sim.resources.food >= config.low_food_threshold {
            1int
        } else {
            0
        }) as u32,
        healthy_energy_months: (c.healthy_energy_months + if sim.resources.energy
            >= config.low_energy_threshold {
            1int
        } else {
            0
        }) as u32,
        phase_index: index as usize,
        phase,
        objective_progress: progress,
        ..c
    }
}

/// A milestone after progress `p`: reached once `p` meets its threshold.
pub open spec fn milestone_after(m: MilestoneState, p: int) -> MilestoneState {
    MilestoneState { reached: m.reached || p >= m.progress_threshold, ..m }
}

/// Whether this month first reaches milestone `m`.
pub open spec fn newly_reached(m: MilestoneState, p: int) -> bool {
    !m.reached && p >= m.progress_threshold
}

/// Names of the milestones among the first `n` first reached at `p`, in order.
pub open spec fn reached_names(ms: Seq<MilestoneState>, p: int, n: int) -> Seq<Seq<char>>
    decreases n,
{
    if n <= 0 {
        Seq::empty()
    } else {
        let prev = reached_names(ms, p, n - 1);
        if newly_reached(ms[n - 1], p) {
            prev.push(ms[n - 1].name@)
        } else {
            prev
        }
    }
}

/// The stores after paying every milestone among the first `n` first reached at `p`.
pub open spec fn paid(r: crate::state::ResourceState, ms: Seq<MilestoneState>, p: int, n: int) -> crate::state::ResourceState
    decreases n,
{
    if n <= 0 {
        r
    } else {
        let prev = paid(r, ms, p, n - 1);
        if newly_reached(ms[n - 1], p) {
            prev.applied(ms[n - 1].reward)
        } else {
            prev
        }
    }
}

/// What a metric reads this month.
pub open spec fn metric_reading(kind: MetricKind, c: ActiveContract, sim: SimState) -> i64 {
    match kind {
        MetricKind::PopulationSurvival => if c.starting_population == 0 {
            ONE
        } else {
            ((sim.population.count * ONE) / (c.starting_population as int)) as i64
        },
        MetricKind::MissionCompletion => c.objective_fraction_spec() as i64,
        MetricKind::ResourceEfficiency => c.upkeep_spec() as i64,
        MetricKind::SocialCohesion => sim.population.unity,
    }
}

/// A contract fit to advance: its timeline fits the clock, its upkeep tally
/// never exceeds the months flown, and its metrics weigh in as fractions.
pub open spec fn advance_ok(c: ActiveContract) -> bool {
    &&& timeline_ok(c)
    &&& c.months_elapsed < u32::MAX
    &&& c.healthy_food_months <= c.months_elapsed
    &&& c.healthy_energy_months <= c.months_elapsed
    &&& c.metrics.len() <= 0x1_0000_0000
    &&& forall|i: int| 0 <= i < c.metrics.len() ==> -ONE <= (#[trigger] c.metrics@[i]).weight <= ONE
    &&& -crate::fixed::BOUND <= c.objective_target <= crate::fixed::BOUND
}

proof fn lemma_paid_step(r: crate::state::ResourceState, ms: Seq<MilestoneState>, p: int, n: int)
    requires
        0 <= n,
    ensures
        paid(r, ms, p, n + 1) == (if newly_reached(ms[n], p) {
            paid(r, ms, p, n).applied(ms[n].reward)
        } else {
            paid(r, ms, p, n)
        }),
{
}

/// What a month of contract time does (see [`advance_contract`]): nothing
/// without a contract; otherwise the clock, the upkeep tallies, the phase
/// and the objective move as [`clock_after`] says, every milestone first
/// reached is marked, named and paid, the metrics are read afresh, the
/// contract is scored the month it reaches full term, and a phase change is
/// reported.
pub open spec fn contract_advanced(
    s0: SimState,
    config: GameConfig,
    speed: i32,
    s1: SimState,
    out: ContractProgress,
) -> bool {
    match s0.contract {
        None => s1 == s0 && out.reached_milestones.len() == 0
            && out.phase_changed is None && out.completed is None,
        Some(c) => {
            let c1 = clock_after(c, s0, config, speed);
            let p = c1.progress_spec();
            &&& s1.contract matches Some(f) && {
                &&& f.months_elapsed == c1.months_elapsed
                &&& f.phase == c1.phase
                &&& f.phase_index == c1.phase_index
                &&& f.objective_progress == c1.objective_progress
                &&& f.healthy_food_months == c1.healthy_food_months
                &&& f.healthy_energy_months == c1.healthy_energy_months
                &&& f.milestones.len() == c.milestones.len()
                &&& (forall|j: int| 0 <= j < c.milestones.len() ==> #[trigger] f.milestones@[j]
                    == milestone_after(c.milestones@[j], p))
                &&& f.metrics.len() == c.metrics.len()
                &&& (forall|j: int| 0 <= j < c.metrics.len() ==> #[trigger] f.metrics@[j]
                    == (MetricState {
                    current: metric_reading(c.metrics@[j].kind, c1, s0),
                    ..c.metrics@[j]
                }))
                &&& f == (ActiveContract { milestones: f.milestones, metrics: f.metrics, ..c1 })
                &&& out.completed == (if c1.months_elapsed >= months_total(c1.phases@) {
                    Some(
                        (
                            score_of(f.metrics@, f.metrics.len() as int) as i64,
                            level_of(score_of(f.metrics@, f.metrics.len() as int)),
                        ),
                    )
                } else {
                    None
                })
            }
            &&& out.phase_changed == (if c1.phase != c.phase {
                Some(c1.phase)
            } else {
                None
            })
            &&& out.reached_milestones.len() == reached_names(
                c.milestones@,
                p,
                c.milestones.len() as int,
            ).len()
            &&& (forall|j: int| 0 <= j < out.reached_milestones.len() ==> (
            #[trigger] out.reached_milestones@[j])@ == reached_names(
                c.milestones@,
                p,
                c.milestones.len() as int,
            )[j])
            &&& s1.resources == paid(
                s0.resources,
                c.milestones@,
                p,
                c.milestones.len() as int,
            )
            &&& s1 == (SimState {
                contract: s1.contract,
                resources: s1.resources,
                ..s0
            })
        },
    }
}

/// Advance the active contract by one month: step the clock, bank upkeep,
/// recompute the authored phase, accrue objective work while on-station
/// (quickened by `speed`, slowed by a worn key module), mark and pay every
/// milestone first reached this month, refresh the metrics, and score the
/// contract the month it reaches full term. Without a contract nothing
/// changes.
pub fn advance_contract(sim: &mut SimState, config: &GameConfig, speed: i32) -> (out: ContractProgress)
    requires
        old(sim).contract matches Some(c) ==> advance_ok(c),
        old(sim).wf(),
        config.wf(),
    ensures
        contract_advanced(*old(sim), *config, speed, *final(sim), out),
        final(sim).resources.food >= 0,
        final(sim).resources.credits >= 0,
{
    let ghost s0 = *sim;
    let population_count = sim.population.count;
    let unity = sim.population.unity;
    let food_ok = sim.resources.food >= config.low_food_threshold;
    let energy_ok = sim.resources.energy >= config.low_energy_threshold;
    let progress_per_speed = config.ship.contract_progress_per_speed;
    let mut out = ContractProgress {
        reached_milestones: Vec::new(),
        phase_changed: None,
        completed: None,
    };
    let objective_condition: i64 = match &sim.contract {
        None => {
            return out;
        },
        Some(c) => {
            if is_blank(&c.objective_subsystem) {
                ONE
            } else {
                let cond = match sim.subsystem_index(c.objective_subsystem.as_str()) {
                    Some(i) => sim.subsystems[i].condition,
                    None => ONE,
                };
                let worn = crate::fixed::mul_frac(ONE - cond, config.subsystems.objective_condition_penalty);
                if ONE - worn < 0 {
                    0
                } else {
                    ONE - worn
                }
            }
        },
    };
    let ghost c0 = s0.contract.unwrap();
    assert(objective_condition == objective_rate(s0, c0, *config));
    let ghost c1 = clock_after(c0, s0, *config, speed);
    let mut contract = sim.contract.take().unwrap();
    let prev_phase = contract.phase;
    contract.months_elapsed = contract.months_elapsed + 1;
    if food_ok {
        contract.healthy_food_months = contract.healthy_food_months + 1;
    }
    if energy_ok {
        contract.healthy_energy_months = contract.healthy_energy_months + 1;
    }
    let (index, phase) = contract.phase_at(contract.months_elapsed);
    contract.phase_index = index;
    contract.phase = phase;
    if phase != prev_phase {
        out.phase_changed = Some(phase);
    }
    if phase == ContractPhase::Operation {
        let ops = contract.operation_months();
        let ops1: i128 = if ops < 1 {
            1
        } else {
            ops as i128
        };
        let sp: i128 = if speed < 0 {
            0
        } else {
            speed as i128
        };
        proof {
            assert(0 <= sp * progress_per_speed <= 0x8000_0000 * ONE) by (nonlinear_arith)
                requires
                    0 <= sp <= 0x8000_0000,
                    0 <= progress_per_speed <= ONE,
            ;
        }
        let factor: i128 = (ONE as i128) + sp * (progress_per_speed as i128);
        let target = contract.objective_target as i128;
        proof {
            let t = target as int;
            let f = factor as int;
            let r = objective_condition as int;
            assert(-0x100_0000_0000 * (ONE + 0x8000_0000 * ONE) <= t * f
                <= 0x100_0000_0000 * (ONE + 0x8000_0000 * ONE)) by (nonlinear_arith)
                requires
                    -0x100_0000_0000 <= t <= 0x100_0000_0000,
                    ONE <= f <= ONE + 0x8000_0000 * ONE,
            ;
            assert(-0x100_0000_0000 * (ONE + 0x8000_0000 * ONE) * ONE <= t * f * r
                <= 0x100_0000_0000 * (ONE + 0x8000_0000 * ONE) * ONE) by (nonlinear_arith)
                requires
                    -0x100_0000_0000 <= t <= 0x100_0000_0000,
                    ONE <= f <= ONE + 0x8000_0000 * ONE,
                    0 <= r <= ONE,
            ;
            assert(1 <= ops1 * ONE * ONE <= 0x1_0000_0000 * ONE * ONE) by (nonlinear_arith)
                requires
                    1 <= ops1 <= 0x1_0000_0000,
            ;
        }
        let inc = tdiv_i128(target * factor * (objective_condition as i128), ops1 * (ONE as i128) * (ONE as i128));
        proof {
            let a = (target * factor * (objective_condition as i128)) as int;
            let b = (ops1 * (ONE as i128) * (ONE as i128)) as int;
            if a >= 0 {
                assert(a / b <= a) by (nonlinear_arith)
                    requires
                        a >= 0,
                        b >= 1,
                ;
            } else {
                assert((-a) / b <= -a) by (nonlinear_arith)
                    requires
                        -a >= 0,
                        b >= 1,
                ;
            }
        }
        contract.objective_progress = clamp_i128(
            (contract.objective_progress as i128) + inc,
            i64::MIN,
            i64::MAX,
        );
    }
    assert(contract == c1);
    let progress = contract.progress();
    let ghost ms0 = c0.milestones@;
    let mut j: usize = 0;
    while j < contract.milestones.len()
        invariant
            j <= contract.milestones.len(),
            contract.milestones.len() == ms0.len(),
            progress == c1.progress_spec(),
            forall|k: int| 0 <= k < j ==> #[trigger] contract.milestones@[k] == milestone_after(ms0[k], progress as int),
            forall|k: int| j <= k < ms0.len() ==> #[trigger] contract.milestones@[k] == ms0[k],
            contract == (ActiveContract { milestones: contract.milestones, ..c1 }),
            out.reached_milestones.len() == reached_names(ms0, progress as int, j as int).len(),
            forall|k: int| 0 <= k < out.reached_milestones.len() ==> (
            #[trigger] out.reached_milestones@[k])@ == reached_names(ms0, progress as int, j as int)[k],
            out.phase_changed == (if c1.phase != c0.phase {
                Some(c1.phase)
            } else {
                None
            }),
            out.completed is None,
            sim.resources == paid(s0.resources, ms0, progress as int, j as int),
            sim.resources.food >= 0,
            sim.resources.credits >= 0,
            *sim == (SimState { resources: sim.resources, contract: None, ..s0 }),
        decreases contract.milestones.len() - j,
    {
        proof {
            lemma_paid_step(s0.resources, ms0, progress as int, j as int);
        }
        if !contract.milestones[j].reached && progress >= contract.milestones[j].progress_threshold {
            contract.milestones[j].reached = true;
            out.reached_milestones.push(contract.milestones[j].name.clone());
            let reward = contract.milestones[j].reward;
            sim.resources.apply(&reward);
        }
        j = j + 1;
    }
    let objective_fraction = contract.objective_fraction();
    let upkeep = contract.upkeep_health();
    let ghost mt0 = c0.metrics@;
    let ghost ms1 = contract.milestones@;
    let ghost s1 = *sim;
    let ghost reached1 = out.reached_milestones@;
    let ghost changed1 = out.phase_changed;
    let mut j: usize = 0;
    while j < contract.metrics.len()
        invariant
            j <= contract.metrics.len(),
            contract.metrics.len() == mt0.len(),
            objective_fraction == c1.objective_fraction_spec(),
            upkeep == c1.upkeep_spec(),
            population_count == s0.population.count,
            unity == s0.population.unity,
            forall|k: int|
                0 <= k < j ==> #[trigger] contract.metrics@[k] == (MetricState {
                    current: metric_reading(mt0[k].kind, c1, s0),
                    ..mt0[k]
                }),
            forall|k: int| j <= k < mt0.len() ==> #[trigger] contract.metrics@[k] == mt0[k],
            contract == (ActiveContract { milestones: contract.milestones, metrics: contract.metrics, ..c1 }),
            contract.milestones@ == ms1,
            *sim == s1,
            out.reached_milestones@ == reached1,
            out.phase_changed == changed1,
            out.completed is None,
        decreases contract.metrics.len() - j,
    {
        let kind = contract.metrics[j].kind;
        let current: i64 = match kind {
            MetricKind::PopulationSurvival => {
                if contract.starting_population == 0 {
                    ONE
                } else {
                    proof {
                        let n = population_count as int;
                        let d = contract.starting_population as int;
                        assert(0 <= (n * ONE) / d <= n * ONE) by (nonlinear_arith)
                            requires
                                0 <= n,
                                d >= 1,
                        ;
                        assert(n * ONE <= 0x1_0000_0000 * ONE) by (nonlinear_arith)
                            requires
                                0 <= n <= 0x1_0000_0000,
                        ;
                    }
                    ((population_count as i128) * (ONE as i128) / (contract.starting_population as i128)) as i64
                }
            },
            MetricKind::MissionCompletion => objective_fraction,
            MetricKind::ResourceEfficiency => upkeep,
            MetricKind::SocialCohesion => unity,
        };
        contract.metrics[j].current = current;
        j = j + 1;
    }
    let total = contract.total_months();
    if contract.months_elapsed >= total {
        proof {
            assert forall|k: int| 0 <= k < contract.metrics.len() implies (#[trigger] contract.metrics@[k]).current >= 0
                && -ONE <= contract.metrics@[k].weight <= ONE by {
                assert(-ONE <= c0.metrics@[k].weight <= ONE);
            }
        }
        out.completed = Some(score_success(&contract.metrics));
    }
    sim.contract = Some(contract);
    out
}

} // verus!
