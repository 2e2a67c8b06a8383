//! The advance of time: month by month, with the economic year applied on
//! each year boundary, stopping the moment something needs the council.

use vstd::prelude::*;

use crate::config::GameConfig;
use crate::contract::SuccessLevel;
use crate::data::{ContractPhase, EventCategory, EventOutcome, EventTemplate, GameData};
use crate::fixed::{BOUND, ONE};
use crate::economy::log_grew;
use crate::event_resolver::{charter_ok, events_ok, of_family, picked, rolled_event};
use crate::contract::{
    advance_ok, contract_advanced, first_return, lemma_months_before_mono, occurrence_of, phase_at, phase_line,
    timeline_ok, ContractProgress,
};
use crate::economy::{year_path, ShipFactors};
use crate::fixed::bump;
use crate::fixed::scale;
use crate::state::ShipState;
use crate::ship::{components_ok, loadout};
use crate::voyage::ideologies_ok;
use crate::beats::{
    beats_ok, fire_succession_beat, fire_long_reign_beat, fire_dynasty_crisis_beat, fire_scheduled_beat, fire_charter_scheduled_beat, fire_due_beat, fire_drift_beat, fire_adaptation_beat, fire_crisis_beat, fire_loyalty_beat, fire_stability_beat, fire_subsystem_beat, fire_hull_beat, fire_reputation_beat, fire_recovery_beat, fire_flourish_beat, fire_depopulation_beat, fire_objective_beat, fire_founding_beat, fire_midvoyage_beat, fire_homecoming_beat, fire_power_transition_beat, fire_anniversary_beat, fire_dead_air_beat,
    succession_beat_step, long_reign_beat_step, dynasty_crisis_beat_step, scheduled_beat_step, charter_scheduled_beat_step, due_beat_step, drift_beat_step, adaptation_beat_step, crisis_beat_step, loyalty_beat_step, stability_beat_step, subsystem_beat_step, hull_beat_step, reputation_beat_step, recovery_beat_step, flourish_beat_step, depopulation_beat_step, objective_beat_step, founding_beat_step, midvoyage_beat_step, homecoming_beat_step, power_transition_beat_step, anniversary_beat_step, dead_air_beat_step,
};
use crate::keys::{first, lemma_first_from, lemma_first_unique};
use crate::outcome::{best_outcome, contract_after, outcome_applied, outcome_ok};
use crate::state::{line_led, ActiveContract, LogEntry, PendingEvent, SimState};
use crate::subsystems::{defs_ok, harm_factor};
use crate::text::{fill_pooled, pooled_fill};
use crate::util::{join2, join4, same};

verus! {

/// Everything an advance produced that its caller must react to; log lines
/// are already recorded on the campaign.
#[derive(Debug, Clone, Copy)]
pub struct TickReport {
    /// Set when the charter reached its full duration: its score and level.
    pub contract_completed: Option<(i64, SuccessLevel)>,
    /// Set when an event or dilemma awaits a council decision.
    pub decision_required: bool,
    pub dynasty_extinct: bool,
    /// Set the month a sitting leader dies in office.
    pub leader_died: bool,
    /// Months actually advanced before the advance stopped.
    pub months_advanced: u32,
    /// Set when the charter crossed into a new phase.
    pub phase_changed: Option<ContractPhase>,
}

impl Default for TickReport {
    fn default() -> (r: TickReport)
        ensures
            r == (TickReport {
                contract_completed: None,
                decision_required: false,
                dynasty_extinct: false,
                leader_died: false,
                months_advanced: 0,
                phase_changed: None,
            }),
    {
        TickReport {
            contract_completed: None,
            decision_required: false,
            dynasty_extinct: false,
            leader_died: false,
            months_advanced: 0,
            phase_changed: None,
        }
    }
}

// ---------------------------------------------------------------- applying an event

/// The event ids, in catalog order.
pub open spec fn event_keys(es: Seq<EventTemplate>) -> Seq<Seq<char>> {
    Seq::new(es.len(), |i: int| es[i].id@)
}

/// The catalog entry for event `id`.
pub open spec fn event_def(data: GameData, id: Seq<char>) -> Option<EventTemplate> {
    match first(event_keys(data.events@), id) {
        Some(i) => Some(data.events@[i]),
        None => None,
    }
}

/// The catalog index of event `id`.
pub fn event_def_index(data: &GameData, id: &str) -> (r: Option<usize>)
    ensures
        r matches Some(i) ==> i < data.events.len() && event_def(*data, id@) == Some(data.events@[i as int]),
        r is None ==> event_def(*data, id@) is None,
{
    let key = id.to_owned();
    let ghost keys = event_keys(data.events@);
    let mut i: usize = 0;
    while i < data.events.len()
        invariant
            i <= data.events.len(),
            keys == event_keys(data.events@),
            key@ == id@,
            forall|j: int| 0 <= j < i ==> keys[j] != id@,
        decreases data.events.len() - i,
    {
        if same(&data.events[i].id, &key) {
            proof {
                lemma_first_unique(keys, id@, i as int);
            }
            return Some(i);
        }
        i = i + 1;
    }
    proof {
        lemma_first_from(keys, id@, 0);
    }
    None
}

/// Whether the council leaves category `cat` to its advisors.
pub open spec fn delegated(s: SimState, cat: EventCategory) -> bool {
    exists|i: int| 0 <= i < s.delegation.len() && #[trigger] s.delegation@[i] == cat
}

/// See [`delegated`].
pub fn is_delegated(sim: &SimState, cat: EventCategory) -> (r: bool)
    ensures
        r == delegated(*sim, cat),
{
    let mut i: usize = 0;
    while i < sim.delegation.len()
        invariant
            i <= sim.delegation.len(),
            forall|j: int| 0 <= j < i ==> sim.delegation@[j] != cat,
        decreases sim.delegation.len() - i,
    {
        if sim.delegation[i] == cat {
            return true;
        }
        i = i + 1;
    }
    false
}

/// The latest year an event can be applied in: above every year the month
/// clock can show (`u32::MAX / 12`, about 358 million), and low enough that
/// a follow-up promised up to [`FOLLOWUP_DELAY_LIMIT`] years on still has a
/// year the `u32` counter can hold.
pub const YEAR_LIMIT: u32 = 400_000_000;

/// The furthest ahead an event may promise a follow-up; with
/// [`YEAR_LIMIT`] it fills the `u32` year counter.
pub const FOLLOWUP_DELAY_LIMIT: u32 = 3_800_000_000;

/// The two limits together fit the year counter, and every year the month
/// clock can show lies within the first.
pub proof fn lemma_year_limits()
    ensures
        YEAR_LIMIT + FOLLOWUP_DELAY_LIMIT <= u32::MAX,
        u32::MAX / 12 <= YEAR_LIMIT,
{
}

/// Every event's choices are within the library's arithmetic range, and a
/// promised follow-up comes within [`FOLLOWUP_DELAY_LIMIT`] years.
pub open spec fn events_fit(data: GameData) -> bool {
    forall|i: int, k: int|
        0 <= i < data.events.len() && 0 <= k < data.events@[i].outcomes.len() ==> {
            let o = #[trigger] data.events@[i].outcomes@[k];
            &&& outcome_ok(o)
            &&& (o.schedule_followup matches Some(f) ==> f.delay_years <= FOLLOWUP_DELAY_LIMIT)
        }
}

/// The line that summons the council to `t`: the pool's line at `n` with
/// the title filled in, or the built-in one.
pub open spec fn summons_line(cfg: GameConfig, t: EventTemplate, n: nat) -> Seq<char> {
    match pooled_fill(cfg.flavor.council_summons@, n, "{title}"@, t.title@) {
        Some(l) => l,
        None => "Council decision required: "@ + t.title@,
    }
}

/// The ship after its advisors settle `t`: the best-scoring choice applied,
/// or nothing for an event without choices.
pub open spec fn resolved(s0: SimState, data: GameData, t: EventTemplate, s1: SimState) -> bool {
    if t.outcomes.len() == 0 {
        s1 == s0
    } else {
        outcome_applied(s0, data, t, best_outcome(t, s0, data.config), s1)
    }
}

/// The label of the choice the advisors take (empty for none).
pub open spec fn advised_label(s0: SimState, data: GameData, t: EventTemplate) -> Seq<char> {
    if t.outcomes.len() == 0 {
        Seq::empty()
    } else {
        t.outcomes@[best_outcome(t, s0, data.config)].label@
    }
}

/// What surfacing a rolled event does: an id the catalog does not know
/// changes nothing; an event that needs the council (and is not delegated)
/// is logged with its summons, left pending and reported; any other is
/// settled by the advisors, a delegated one with a line saying how.
pub open spec fn pending_applied(
    s0: SimState,
    data: GameData,
    p: PendingEvent,
    r0: TickReport,
    s1: SimState,
    r1: TickReport,
) -> bool {
    match event_def(data, p.template_id@) {
        None => s1 == s0 && r1 == r0,
        Some(t) => if t.requires_decision && !delegated(s0, t.category) {
            &&& log_grew(s0, s1, 1)
            &&& s1.log@[s0.log.len() as int].text@ == summons_line(data.config, t, s0.log.len() as nat)
            &&& s1 == (SimState { log: s1.log, pending_event: Some(p), ..s0 })
            &&& r1 == (TickReport { decision_required: true, ..r0 })
        } else {
            &&& r1 == r0
            &&& exists|m: SimState|
                #[trigger] resolved(s0, data, t, m) && s1 == (SimState { log: s1.log, ..m }) && log_grew(
                    m,
                    s1,
                    if delegated(s0, t.category) {
                        1
                    } else {
                        0
                    },
                ) && (delegated(s0, t.category) ==> s1.log@[m.log.len() as int].text@
                    == "Delegated advisor resolved '"@ + t.title@ + "' with: "@ + advised_label(
                    s0,
                    data,
                    t,
                ))
        },
    }
}

/// The watch holds: the calendar stands still (the month, the year, and
/// the months an advance has counted), and a living line that had a head
/// still has one.
pub open spec fn keeps_watch(s0: SimState, r0: TickReport, s1: SimState, r1: TickReport) -> bool {
    &&& s1.month_clock == s0.month_clock
    &&& s1.year == s0.year
    &&& r1.months_advanced == r0.months_advanced
    &&& line_led(s0) ==> line_led(s1)
}

/// A charter's books are in order: its healthy-month tallies within the
/// months flown, its metrics weighing in as fractions, its target in range.
pub open spec fn contract_fit(s: SimState) -> bool {
    s.contract matches Some(c) ==> {
        &&& c.healthy_food_months <= c.months_elapsed
        &&& c.healthy_energy_months <= c.months_elapsed
        &&& c.metrics.len() <= 0x1_0000_0000
        &&& (forall|i: int| 0 <= i < c.metrics.len() ==> -ONE <= (#[trigger] c.metrics@[i]).weight <= ONE)
        &&& -BOUND <= c.objective_target <= BOUND
    }
}

/// What an event needs of the ship to be applied: well-formed, its charter
/// on the clock and its books in order, and its year within [`YEAR_LIMIT`]
/// (which every year the month clock can show is) so any follow-up can be
/// dated.
pub open spec fn event_ready(s: SimState) -> bool {
    &&& s.wf()
    &&& charter_ok(s)
    &&& contract_fit(s)
    &&& s.year <= YEAR_LIMIT
    &&& crate::economy::output_ok(s)
    &&& -BOUND <= s.fuel_scooped_accum <= BOUND
}

proof fn lemma_first_return_in(segs: Seq<crate::data::PhaseSegment>, k: int)
    requires
        0 <= k,
    ensures
        first_return(segs, k) matches Some(ri) ==> k <= ri < segs.len(),
    decreases segs.len() - k,
{
    if k < segs.len() && segs[k].kind != ContractPhase::Return {
        lemma_first_return_in(segs, k + 1);
    }
}

/// A choice's effect on the charter keeps its timeline, its hazard and its
/// books, and never winds its clock back.
pub proof fn lemma_contract_after_keeps(c0: Option<ActiveContract>, o: EventOutcome)
    requires
        c0 matches Some(a) ==> timeline_ok(a),
    ensures
        c0 is None <==> contract_after(c0, o) is None,
        c0 matches Some(a) ==> contract_after(c0, o) matches Some(b) && b.phases == a.phases && b.hazard
            == a.hazard && b.healthy_food_months == a.healthy_food_months && b.healthy_energy_months
            == a.healthy_energy_months && b.metrics == a.metrics && b.objective_target == a.objective_target
            && b.months_elapsed >= a.months_elapsed,
{
    match c0 {
        Some(a) => {
            lemma_first_return_in(a.phases@, 0);
            match first_return(a.phases@, 0) {
                Some(ri) => {
                    lemma_months_before_mono(a.phases@, ri, a.phases.len() as int);
                },
                None => {},
            }
        },
        None => {},
    }
}

/// Applying a choice keeps the ship ready for the next event.
pub proof fn lemma_outcome_keeps_ready(s0: SimState, data: GameData, t: EventTemplate, i: int, s1: SimState)
    requires
        event_ready(s0),
        s1.wf(),
        outcome_applied(s0, data, t, i, s1),
    ensures
        event_ready(s1),
        line_led(s0) ==> line_led(s1),
{
    lemma_contract_after_keeps(s0.contract, t.outcomes@[i]);
    let o = t.outcomes@[i];
    let mid = crate::effects::subs_after(s0.subsystems@, o.subsystem_deltas@);
    crate::effects::lemma_subs_after_same_modules(s0.subsystems@, o.subsystem_deltas@);
    let k = crate::event_resolver::active(s0, t);
    let more = if crate::outcome::toll_lands(t, k, o) {
        t.complications@[k.unwrap()].subsystem_deltas@
    } else {
        Seq::empty()
    };
    crate::effects::lemma_subs_after_same_modules(mid, more);
    crate::economy::lemma_output_kept(s0, s1);
    let f = harm_factor(s0, data, t.family@);
    let pd = crate::subsystems::soft_population(o.population_delta, f);
    let rc = crate::event_resolver::rolled_count(pd.count, data.config.real_time, s0.rolls);
    let lost = (if rc.0 < 0 {
        -rc.0
    } else {
        0
    }) as u32;
    crate::mortality::law_claim_spares_the_leader(s0.crew@, s0.dynasty.members@, rc.1, data.config.mortality, lost);
}

proof fn lemma_push_grew(s0: SimState, s1: SimState, text: String)
    requires
        s1.log@ == s0.log@.push(LogEntry { month_clock: s0.month_clock, text }),
    ensures
        log_grew(s0, s1, 1),
        s1.log@[s0.log.len() as int].text == text,
{
    assert(s1.log@.subrange(0, s0.log.len() as int) =~= s0.log@);
}

/// Surface a rolled event (see [`pending_applied`]).
pub fn apply_pending_event(sim: &mut SimState, data: &GameData, pending: PendingEvent, report: &mut TickReport)
    requires
        event_ready(*old(sim)),
        data.config.wf(),
        defs_ok(data.subsystems@),
        events_fit(*data),
    ensures
        pending_applied(*old(sim), *data, pending, *old(report), *final(sim), *final(report)),
        event_ready(*final(sim)),
        keeps_watch(*old(sim), *old(report), *final(sim), *final(report)),
{
    let ghost s0 = *sim;
    let idx = match event_def_index(data, pending.template_id.as_str()) {
        Some(i) => i,
        None => return,
    };
    let template = &data.events[idx];
    let dlg = is_delegated(sim, template.category);
    if template.requires_decision && !dlg {
        proof {
            reveal_strlit("{title}");
        }
        let line = match fill_pooled(&data.config.flavor.council_summons, sim.log.len(), "{title}", template.title.as_str()) {
            Some(l) => l,
            None => join2("Council decision required: ", template.title.as_str()),
        };
        sim.push_log(line);
        proof {
            lemma_push_grew(s0, *sim, sim.log@.last().text);
        }
        sim.pending_event = Some(pending);
        report.decision_required = true;
        return;
    }
    proof {
        assert forall|k: int| 0 <= k < template.outcomes.len() implies outcome_ok(
            #[trigger] template.outcomes@[k],
        ) && (template.outcomes@[k].schedule_followup matches Some(f) ==> old(sim).year + f.delay_years
            <= u32::MAX) by {
            assert(data.events@[idx as int].outcomes@[k] == template.outcomes@[k]);
        }
    }
    let label = crate::outcome::auto_resolve(sim, data, template);
    let ghost m = *sim;
    if dlg {
        proof {
            reveal_strlit("Delegated advisor resolved '");
            reveal_strlit("' with: ");
        }
        let line = join4("Delegated advisor resolved '", template.title.as_str(), "' with: ", label.as_str());
        sim.push_log(line);
        proof {
            lemma_push_grew(m, *sim, sim.log@.last().text);
        }
    } else {
        proof {
            assert(sim.log@.subrange(0, m.log.len() as int) =~= m.log@);
        }
    }
    proof {
        assert(resolved(s0, *data, *template, m));
        if template.outcomes.len() > 0 {
            lemma_outcome_keeps_ready(s0, *data, *template, best_outcome(*template, s0, data.config), m);
        }
    }
}

/// What the month's reactive roll does: the roll (see
/// [`rolled_event`]), and the event it gives surfaced.
pub open spec fn monthly_rolled(s0: SimState, data: GameData, r0: TickReport, s1: SimState, r1: TickReport) -> bool {
    let (q, m) = rolled_event(s0, data);
    match q {
        Some(e) => pending_applied(m, data, e, r0, s1, r1),
        None => s1 == m && r1 == r0,
    }
}

/// Roll the month's reactive event and surface it.
pub fn roll_monthly_event(sim: &mut SimState, data: &GameData, report: &mut TickReport)
    requires
        event_ready(*old(sim)),
        data.config.wf(),
        defs_ok(data.subsystems@),
        events_ok(*data),
        events_fit(*data),
    ensures
        monthly_rolled(*old(sim), *data, *old(report), *final(sim), *final(report)),
        event_ready(*final(sim)),
        keeps_watch(*old(sim), *old(report), *final(sim), *final(report)),
{
    match crate::event_resolver::roll_event(sim, data) {
        Some(pending) => apply_pending_event(sim, data, pending, report),
        None => {},
    }
}

/// What forcing a beat from `fam` does: a weighted pick among the family's
/// cleared events, surfaced; when the family has none, the month's reactive
/// roll instead.
pub open spec fn family_forced(
    s0: SimState,
    data: GameData,
    fam: Seq<char>,
    r0: TickReport,
    s1: SimState,
    r1: TickReport,
) -> bool {
    let (p, m) = picked(s0, data, of_family(s0, data, fam, data.events.len() as int));
    match p {
        Some(e) => pending_applied(m, data, e, r0, s1, r1),
        None => monthly_rolled(m, data, r0, s1, r1),
    }
}

/// Force one event from `family` (see [`family_forced`]).
pub fn force_family_beat(sim: &mut SimState, data: &GameData, family: &str, report: &mut TickReport)
    requires
        event_ready(*old(sim)),
        data.config.wf(),
        defs_ok(data.subsystems@),
        events_ok(*data),
        events_fit(*data),
    ensures
        family_forced(*old(sim), *data, family@, *old(report), *final(sim), *final(report)),
        event_ready(*final(sim)),
        keeps_watch(*old(sim), *old(report), *final(sim), *final(report)),
{
    match crate::event_resolver::roll_event_in_family(sim, data, family) {
        Some(pending) => apply_pending_event(sim, data, pending, report),
        None => roll_monthly_event(sim, data, report),
    }
}

/// What forcing event `id` does: it is surfaced past its gates, dated this
/// month, and the event clock reset.
pub open spec fn event_forced(
    s0: SimState,
    data: GameData,
    id: String,
    r0: TickReport,
    s1: SimState,
    r1: TickReport,
) -> bool {
    exists|m: SimState|
        #[trigger] pending_applied(
            s0,
            data,
            PendingEvent { template_id: id, rolled_month_clock: s0.month_clock },
            r0,
            m,
            r1,
        ) && s1 == (SimState { last_event_month_clock: m.month_clock, ..m })
}

/// Force event `template_id` (see [`event_forced`]).
pub fn force_event_beat(sim: &mut SimState, data: &GameData, template_id: String, report: &mut TickReport)
    requires
        event_ready(*old(sim)),
        data.config.wf(),
        defs_ok(data.subsystems@),
        events_fit(*data),
    ensures
        event_forced(*old(sim), *data, template_id, *old(report), *final(sim), *final(report)),
        event_ready(*final(sim)),
        keeps_watch(*old(sim), *old(report), *final(sim), *final(report)),
{
    let ghost r0 = *report;
    let ghost id = template_id;
    let pending = PendingEvent { template_id, rolled_month_clock: sim.month_clock };
    apply_pending_event(sim, data, pending, report);
    let ghost m = *sim;
    sim.last_event_month_clock = sim.month_clock;
    proof {
        assert(pending_applied(
            *old(sim),
            *data,
            PendingEvent { template_id: id, rolled_month_clock: old(sim).month_clock },
            r0,
            m,
            *report,
        ));
    }
}

// ---------------------------------------------------------------- a month of the charter

/// The fuel a month under way burns, scaled by the engineering bay.
pub open spec fn fuel_burn(cfg: GameConfig, f: ShipFactors) -> int {
    scale(cfg.provisioning.fuel_burn_per_travel_month as int, f.fuel_burn_factor as int)
}

/// Whether the month about to be flown falls in a Travel segment.
pub open spec fn under_way(c: ActiveContract) -> bool {
    phase_at(c.phases@, c.months_elapsed + 1).1 == ContractPhase::Travel
}

/// The log line for reaching `name`: the pool's line at `idx` with the name
/// filled in, or the built-in one.
pub open spec fn milestone_line(pool: Seq<String>, idx: nat, name: Seq<char>) -> Seq<char> {
    match pooled_fill(pool, idx, "{milestone}"@, name) {
        Some(l) => l,
        None => "Milestone reached: "@ + name,
    }
}

/// The report after a month of contract time: a phase change and a
/// completion, when the month brought them.
pub open spec fn reported(r0: TickReport, out: ContractProgress) -> TickReport {
    TickReport {
        phase_changed: if out.phase_changed is Some {
            out.phase_changed
        } else {
            r0.phase_changed
        },
        contract_completed: if out.completed is Some {
            out.completed
        } else {
            r0.contract_completed
        },
        ..r0
    }
}

/// The month's contract progress told in the log: each milestone reached,
/// in order, then the phase entered.
pub open spec fn progress_told(a: SimState, data: GameData, out: ContractProgress, s1: SimState) -> bool {
    let n = out.reached_milestones.len() as int;
    let base = a.log.len() as int;
    &&& log_grew(a, s1, n + if out.phase_changed is Some {
        1int
    } else {
        0
    })
    &&& forall|j: int|
        0 <= j < n ==> (#[trigger] s1.log@[base + j]).text@ == milestone_line(
            data.config.flavor.milestone@,
            (base + j) as nat,
            out.reached_milestones@[j]@,
        )
    &&& (out.phase_changed matches Some(p) ==> s1.log@[base + n].text@ == phase_line(
        data.config.flavor,
        p,
        occurrence_of(a.contract.unwrap(), p),
    ))
    &&& s1 == (SimState { log: s1.log, ..a })
}

/// The ship after paying a month's fuel, when under way.
pub open spec fn fueled(s0: SimState, data: GameData, f: ShipFactors) -> SimState {
    if under_way(s0.contract.unwrap()) {
        SimState {
            ship: ShipState { fuel: (s0.ship.fuel - fuel_burn(data.config, f)) as i64, ..s0.ship },
            ..s0
        }
    } else {
        s0
    }
}

/// What a month of the charter does: nothing without one (or with its
/// clock at the counter's top); a month under way burns fuel, and a tank
/// that cannot pay for it runs dry, the ship coasting (no progress, the
/// stall counted); otherwise the contract advances a month at the
/// loadout's speed, its progress is told and reported.
pub open spec fn month_flown(
    s0: SimState,
    data: GameData,
    f: ShipFactors,
    r0: TickReport,
    s1: SimState,
    r1: TickReport,
) -> bool {
    let cfg = data.config;
    match s0.contract {
        None => s1 == s0 && r1 == r0,
        Some(c) => if c.months_elapsed == u32::MAX {
            s1 == s0 && r1 == r0
        } else {
            let burn = fuel_burn(cfg, f);
            if under_way(c) && s0.ship.fuel < burn {
                &&& s1 == (SimState {
                    ship: ShipState { fuel: 0, ..s0.ship },
                    stalled_months: bump(s0.stalled_months),
                    fuel_stalled_this_year: true,
                    ..s0
                })
                &&& r1 == r0
            } else {
                exists|a: SimState, out: ContractProgress|
                    #[trigger] contract_advanced(
                        fueled(s0, data, f),
                        cfg,
                        loadout(fueled(s0, data, f).ship, data.ship_components@).speed,
                        a,
                        out,
                    ) && progress_told(a, data, out, s1) && r1 == reported(r0, out)
            }
        },
    }
}

/// Tell a month's contract progress in the log and the report (see
/// [`progress_told`] and [`reported`]).
fn tell_progress(sim: &mut SimState, data: &GameData, progress: &ContractProgress, report: &mut TickReport)
    requires
        old(sim).contract is Some,
    ensures
        progress_told(*old(sim), *data, *progress, *final(sim)),
        *final(report) == reported(*old(report), *progress),
{
    let cfg = &data.config;
    let ghost a = *sim;
    let ghost r0 = *report;
    proof {
        assert(a.log@.subrange(0, a.log.len() as int) =~= a.log@);
    }
    let n = progress.reached_milestones.len();
    let mut j: usize = 0;
    while j < n
        invariant
            j <= n == progress.reached_milestones.len(),
            log_grew(a, *sim, j as int),
            *sim == (SimState { log: sim.log, ..a }),
            forall|i: int|
                0 <= i < j ==> (#[trigger] sim.log@[a.log.len() + i]).text@ == milestone_line(
                    data.config.flavor.milestone@,
                    (a.log.len() + i) as nat,
                    progress.reached_milestones@[i]@,
                ),
        decreases n - j,
    {
        let name = &progress.reached_milestones[j];
        proof {
            reveal_strlit("{milestone}");
        }
        let line = match fill_pooled(&data.config.flavor.milestone, sim.log.len(), "{milestone}", name.as_str()) {
            Some(l) => l,
            None => join2("Milestone reached: ", name.as_str()),
        };
        let ghost before = *sim;
        let ghost text = line;
        assert(text@ == milestone_line(data.config.flavor.milestone@, (a.log.len() + j) as nat, name@));
        sim.push_log(line);
        proof {
            assert(sim.log@ == before.log@.push(LogEntry { month_clock: before.month_clock, text }));
            assert(sim.log@.subrange(0, a.log.len() as int) =~= before.log@.subrange(0, a.log.len() as int));
            assert forall|i: int| 0 <= i < j + 1 implies (#[trigger] sim.log@[a.log.len() + i]).text@
                == milestone_line(data.config.flavor.milestone@, (a.log.len() + i) as nat, progress.reached_milestones@[i]@) by {
                if i < j {
                    assert(sim.log@[a.log.len() + i] == before.log@[a.log.len() + i]);
                } else {
                    assert(sim.log@[a.log.len() + i].text == text);
                }
            }
        }
        j = j + 1;
    }
    match progress.phase_changed {
        Some(phase) => {
            let occurrence = match &sim.contract {
                Some(c) => c.phase_occurrence(phase),
                None => 1,
            };
            let line = crate::contract::phase_transition_line(&cfg.flavor, phase, occurrence);
            let ghost before = *sim;
            sim.push_log(line);
            proof {
                assert(sim.log@.subrange(0, a.log.len() as int) =~= before.log@.subrange(0, a.log.len() as int));
                assert forall|i: int| 0 <= i < n implies (#[trigger] sim.log@[a.log.len() + i]).text@
                    == milestone_line(data.config.flavor.milestone@, (a.log.len() + i) as nat, progress.reached_milestones@[i]@) by {
                    assert(sim.log@[a.log.len() + i] == before.log@[a.log.len() + i]);
                }
            }
            report.phase_changed = Some(phase);
        },
        None => {},
    }
    match progress.completed {
        Some(result) => {
            report.contract_completed = Some(result);
        },
        None => {},
    }
    proof {
        assert(progress_told(a, *data, *progress, *sim));
    }
}

/// One month of contract progress (see [`month_flown`]).
#[verifier::spinoff_prover]
pub fn month_of_contract(sim: &mut SimState, data: &GameData, f: &ShipFactors, report: &mut TickReport)
    requires
        event_ready(*old(sim)),
        data.config.wf(),
        components_ok(data.ship_components@),
        f.wf(),
    ensures
        month_flown(*old(sim), *data, *f, *old(report), *final(sim), *final(report)),
        event_ready(*final(sim)),
        keeps_watch(*old(sim), *old(report), *final(sim), *final(report)),
{
    let ghost s0 = *sim;
    let ghost r0 = *report;
    let cfg = &data.config;
    let travel = match &sim.contract {
        None => return,
        Some(c) => {
            if c.months_elapsed == u32::MAX {
                return;
            }
            c.phase_at(c.months_elapsed + 1).1 == ContractPhase::Travel
        },
    };
    if travel {
        let burn = crate::fixed::fmul(cfg.provisioning.fuel_burn_per_travel_month, f.fuel_burn_factor);
        proof {
            let b = cfg.provisioning.fuel_burn_per_travel_month as int;
            let k = f.fuel_burn_factor as int;
            assert(0 <= b * k <= ONE * (10 * ONE)) by (nonlinear_arith)
                requires
                    0 <= b <= ONE,
                    0 <= k <= 10 * ONE,
            ;
        }
        if sim.ship.fuel < burn {
            sim.ship.fuel = 0;
            sim.stalled_months = sim.stalled_months.saturating_add(1);
            sim.fuel_stalled_this_year = true;
            return;
        }
        sim.ship.fuel = sim.ship.fuel - burn;
    }
    let ghost sf = *sim;
    let stats = crate::ship::loadout_stats(sim, data);
    proof {
        assert(advance_ok(sf.contract.unwrap()));
    }
    let progress = crate::contract::advance_contract(sim, cfg, stats.speed);
    let ghost a = *sim;
    tell_progress(sim, data, &progress, report);
    proof {
        let c = s0.contract.unwrap();
        let burn = fuel_burn(data.config, *f);
        let sf2 = if under_way(c) {
            SimState { ship: ShipState { fuel: (s0.ship.fuel - burn) as i64, ..s0.ship }, ..s0 }
        } else {
            s0
        };
        assert(travel == under_way(c));
        assert(sf2 == sf);
        assert(contract_advanced(sf, data.config, loadout(sf.ship, data.ship_components@).speed, a, progress));
        assert(progress_told(a, *data, progress, *sim));
        assert(*report == reported(r0, progress));
        assert(event_ready(*sim));
        assert(fueled(s0, *data, *f) == sf);
        assert(contract_advanced(
            fueled(s0, *data, *f),
            data.config,
            loadout(fueled(s0, *data, *f).ship, data.ship_components@).speed,
            a,
            progress,
        ));
    }
}

// ---------------------------------------------------------------- the advance

/// The catalog and knobs an advance leans on are in order.
pub open spec fn world_ok(data: GameData) -> bool {
    &&& beats_ok(data)
    &&& ideologies_ok(data)
    &&& components_ok(data.ship_components@)
}

/// Whether an advance must stop: a decision awaits, the charter completed,
/// the line ended, or the charter entered a new phase.
pub open spec fn stops(r: TickReport) -> bool {
    r.decision_required || r.contract_completed is Some || r.dynasty_extinct || r.phase_changed is Some
}

/// Keep only the newest `limit` lines of the log.
pub fn trim_log(sim: &mut SimState, limit: u32)
    ensures
        old(sim).log.len() <= limit ==> *final(sim) == *old(sim),
        old(sim).log.len() > limit ==> final(sim).log@ == old(sim).log@.subrange(
            old(sim).log.len() - limit,
            old(sim).log.len() as int,
        ),
        *final(sim) == (SimState { log: final(sim).log, ..*old(sim) }),
{
    let n = sim.log.len();
    if n <= limit as usize {
        return;
    }
    let kept = sim.log.split_off(n - limit as usize);
    sim.log = kept;
}

/// Whether the sitting leader of `s0` is gone from the line in `s1`.
pub open spec fn leader_gone(s0: SimState, s1: SimState) -> bool {
    crate::state::leader_index(s0.dynasty.members@) matches Some(i) && !(exists|j: int|
        0 <= j < s1.dynasty.members.len() && #[trigger] s1.dynasty.members@[j].id == s0.dynasty.members@[i].id)
}

fn leader_id(sim: &SimState) -> (r: Option<u32>)
    ensures
        match crate::state::leader_index(sim.dynasty.members@) {
            Some(i) => r == Some(sim.dynasty.members@[i].id),
            None => r is None,
        },
{
    match sim.dynasty.leader_index() {
        Some(i) => Some(sim.dynasty.members[i].id),
        None => None,
    }
}

fn has_member(sim: &SimState, id: u32) -> (r: bool)
    ensures
        r == exists|j: int| 0 <= j < sim.dynasty.members.len() && #[trigger] sim.dynasty.members@[j].id == id,
{
    let mut j: usize = 0;
    while j < sim.dynasty.members.len()
        invariant
            j <= sim.dynasty.members.len(),
            forall|k: int| 0 <= k < j ==> sim.dynasty.members@[k].id != id,
        decreases sim.dynasty.members.len() - j,
    {
        if sim.dynasty.members[j].id == id {
            return true;
        }
        j = j + 1;
    }
    false
}

/// Beat `k` in the order the beats are offered.
pub open spec fn beat_step(
    k: int,
    s0: SimState,
    data: GameData,
    r0: TickReport,
    s1: SimState,
    r1: TickReport,
    fired: bool,
) -> bool {
    if k == 0 {
        succession_beat_step(s0, data, r0, s1, r1, fired)
    } else if k == 1 {
        long_reign_beat_step(s0, data, r0, s1, r1, fired)
    } else if k == 2 {
        dynasty_crisis_beat_step(s0, data, r0, s1, r1, fired)
    } else if k == 3 {
        scheduled_beat_step(s0, data, r0, s1, r1, fired)
    } else if k == 4 {
        charter_scheduled_beat_step(s0, data, r0, s1, r1, fired)
    } else if k == 5 {
        due_beat_step(s0, data, r0, s1, r1, fired)
    } else if k == 6 {
        drift_beat_step(s0, data, r0, s1, r1, fired)
    } else if k == 7 {
        adaptation_beat_step(s0, data, r0, s1, r1, fired)
    } else if k == 8 {
        crisis_beat_step(s0, data, r0, s1, r1, fired)
    } else if k == 9 {
        loyalty_beat_step(s0, data, r0, s1, r1, fired)
    } else if k == 10 {
        stability_beat_step(s0, data, r0, s1, r1, fired)
    } else if k == 11 {
        subsystem_beat_step(s0, data, r0, s1, r1, fired)
    } else if k == 12 {
        hull_beat_step(s0, data, r0, s1, r1, fired)
    } else if k == 13 {
        reputation_beat_step(s0, data, r0, s1, r1, fired)
    } else if k == 14 {
        recovery_beat_step(s0, data, r0, s1, r1, fired)
    } else if k == 15 {
        flourish_beat_step(s0, data, r0, s1, r1, fired)
    } else if k == 16 {
        depopulation_beat_step(s0, data, r0, s1, r1, fired)
    } else if k == 17 {
        objective_beat_step(s0, data, r0, s1, r1, fired)
    } else if k == 18 {
        founding_beat_step(s0, data, r0, s1, r1, fired)
    } else if k == 19 {
        midvoyage_beat_step(s0, data, r0, s1, r1, fired)
    } else if k == 20 {
        homecoming_beat_step(s0, data, r0, s1, r1, fired)
    } else if k == 21 {
        power_transition_beat_step(s0, data, r0, s1, r1, fired)
    } else if k == 22 {
        anniversary_beat_step(s0, data, r0, s1, r1, fired)
    } else if k == 23 {
        dead_air_beat_step(s0, data, r0, s1, r1, fired)
    } else {
        false
    }
}

/// How many beats are offered each month.
pub const BEATS: usize = 24;

/// Offer beat `k`.
fn fire_beat(k: usize, sim: &mut SimState, data: &GameData, report: &mut TickReport) -> (fired: bool)
    requires
        k < BEATS,
        event_ready(*old(sim)),
        beats_ok(*data),
    ensures
        beat_step(k as int, *old(sim), *data, *old(report), *final(sim), *final(report), fired),
        event_ready(*final(sim)),
        keeps_watch(*old(sim), *old(report), *final(sim), *final(report)),
{
    if k == 0 {
        fire_succession_beat(sim, data, report)
    } else if k == 1 {
        fire_long_reign_beat(sim, data, report)
    } else if k == 2 {
        fire_dynasty_crisis_beat(sim, data, report)
    } else if k == 3 {
        fire_scheduled_beat(sim, data, report)
    } else if k == 4 {
        fire_charter_scheduled_beat(sim, data, report)
    } else if k == 5 {
        fire_due_beat(sim, data, report)
    } else if k == 6 {
        fire_drift_beat(sim, data, report)
    } else if k == 7 {
        fire_adaptation_beat(sim, data, report)
    } else if k == 8 {
        fire_crisis_beat(sim, data, report)
    } else if k == 9 {
        fire_loyalty_beat(sim, data, report)
    } else if k == 10 {
        fire_stability_beat(sim, data, report)
    } else if k == 11 {
        fire_subsystem_beat(sim, data, report)
    } else if k == 12 {
        fire_hull_beat(sim, data, report)
    } else if k == 13 {
        fire_reputation_beat(sim, data, report)
    } else if k == 14 {
        fire_recovery_beat(sim, data, report)
    } else if k == 15 {
        fire_flourish_beat(sim, data, report)
    } else if k == 16 {
        fire_depopulation_beat(sim, data, report)
    } else if k == 17 {
        fire_objective_beat(sim, data, report)
    } else if k == 18 {
        fire_founding_beat(sim, data, report)
    } else if k == 19 {
        fire_midvoyage_beat(sim, data, report)
    } else if k == 20 {
        fire_homecoming_beat(sim, data, report)
    } else if k == 21 {
        fire_power_transition_beat(sim, data, report)
    } else if k == 22 {
        fire_anniversary_beat(sim, data, report)
    } else if k == 23 {
        fire_dead_air_beat(sim, data, report)
    } else {
        fire_dead_air_beat(sim, data, report)
    }
}

/// The beats from `k` on, in order: the first that fires stands; when none
/// does, the month's reactive roll.
pub open spec fn beats_from(k: int, s: SimState, data: GameData, r: TickReport, s1: SimState, r1: TickReport) -> bool
    decreases BEATS - k,
{
    if k < 0 || k >= BEATS {
        monthly_rolled(s, data, r, s1, r1)
    } else {
        exists|m: SimState, q: TickReport, fired: bool|
            #[trigger] beat_step(k, s, data, r, m, q, fired) && if fired {
                s1 == m && r1 == q
            } else {
                beats_from(k + 1, m, data, q, s1, r1)
            }
    }
}

/// What the month's event step does: nothing in a month that already holds
/// a dilemma, a completion or the line's end; otherwise the beats are
/// offered in order (see [`beats_from`]).
pub open spec fn beats_offered(s: SimState, data: GameData, r: TickReport, s1: SimState, r1: TickReport) -> bool {
    if !(s.pending_dilemma is None && r.contract_completed is None && !r.dynasty_extinct) {
        s1 == s && r1 == r
    } else {
        beats_from(0, s, data, r, s1, r1)
    }
}

/// Offer the beats, then the reactive roll (see [`beats_offered`]).
fn offer_beats(sim: &mut SimState, data: &GameData, report: &mut TickReport)
    requires
        event_ready(*old(sim)),
        beats_ok(*data),
    ensures
        beats_offered(*old(sim), *data, *old(report), *final(sim), *final(report)),
        event_ready(*final(sim)),
        keeps_watch(*old(sim), *old(report), *final(sim), *final(report)),
{
    if !(sim.pending_dilemma.is_none() && report.contract_completed.is_none() && !report.dynasty_extinct) {
        return;
    }
    let ghost s_start = *sim;
    let ghost r_start = *report;
    let mut k: usize = 0;
    while k < BEATS
        invariant
            k <= BEATS,
            event_ready(*sim),
            beats_ok(*data),
            keeps_watch(s_start, r_start, *sim, *report),
            s_start == *old(sim),
            r_start == *old(report),
            s_start.pending_dilemma is None && r_start.contract_completed is None && !r_start.dynasty_extinct,
            forall|t1: SimState, q1: TickReport|
                #[trigger] beats_from(k as int, *sim, *data, *report, t1, q1) ==> beats_from(
                    0,
                    s_start,
                    *data,
                    r_start,
                    t1,
                    q1,
                ),
        decreases BEATS - k,
    {
        let ghost sk = *sim;
        let ghost rk = *report;
        let fired = fire_beat(k, sim, data, report);
        if fired {
            proof {
                assert(beat_step(k as int, sk, *data, rk, *sim, *report, true));
                assert(beats_from(k as int, sk, *data, rk, *sim, *report));
            }
            return;
        }
        proof {
            assert forall|t1: SimState, q1: TickReport|
                #[trigger] beats_from((k + 1) as int, *sim, *data, *report, t1, q1) implies beats_from(
                    0,
                    s_start,
                    *data,
                    r_start,
                    t1,
                    q1,
                ) by {
                assert(beat_step(k as int, sk, *data, rk, *sim, *report, false));
                assert(beats_from(k as int, sk, *data, rk, t1, q1));
            }
        }
        k = k + 1;
    }
    let ghost s24 = *sim;
    let ghost r24 = *report;
    roll_monthly_event(sim, data, report);
    proof {
        assert(beats_from(BEATS as int, s24, *data, r24, *sim, *report));
    }
}

/// The ship after the economic year, when the month closes one (and
/// unchanged otherwise).
pub open spec fn year_turned_if(
    a: SimState,
    data: GameData,
    f: ShipFactors,
    ra: TickReport,
    b: SimState,
    rb: TickReport,
) -> bool {
    if a.month_clock % 12 == 0 {
        exists|tr: Seq<SimState>| #[trigger] year_path(a, data, f, ra, rb, tr) && tr[16] == b
    } else {
        b == a && rb == ra
    }
}

/// What one month of an advance does: the clock steps and the year with
/// it (and the months counted), the economic year applies on a year
/// boundary, the charter flies its month, the death roll is made (the line's
/// end and a sitting leader's death reported), and the event step runs.
pub open spec fn month_passed(
    s0: SimState,
    data: GameData,
    f: ShipFactors,
    r0: TickReport,
    s1: SimState,
    r1: TickReport,
) -> bool {
    let a = SimState {
        month_clock: (s0.month_clock + 1) as u32,
        year: ((s0.month_clock + 1) / 12) as u32,
        ..s0
    };
    let ra = TickReport { months_advanced: (r0.months_advanced + 1) as u32, ..r0 };
    exists|b: SimState, rb: TickReport, c: SimState, rc: TickReport, d: SimState, x: bool|
        year_turned_if(a, data, f, ra, b, rb) && #[trigger] month_flown(b, data, f, rb, c, rc)
            && #[trigger] crate::mortality::death_rolled(c, data, d, x) && beats_offered(
            d,
            data,
            TickReport { dynasty_extinct: rc.dynasty_extinct || x, leader_died: leader_gone(c, d), ..rc },
            s1,
            r1,
        )
}

/// One month of an advance: the clock steps (and the year with it), the
/// economic year applies on a year boundary, the charter flies its month,
/// every life faces the month's death roll, and a beat or the reactive roll
/// surfaces an event.
#[verifier::spinoff_prover]
#[verifier::rlimit(80)]
fn pass_month(sim: &mut SimState, data: &GameData, f: &ShipFactors, report: &mut TickReport)
    requires
        old(sim).wf(),
        charter_ok(*old(sim)),
        contract_fit(*old(sim)),
        crate::economy::output_ok(*old(sim)),
        -BOUND <= old(sim).fuel_scooped_accum <= BOUND,
        world_ok(*data),
        f.wf(),
        old(sim).month_clock < u32::MAX,
        old(report).months_advanced < u32::MAX,
    ensures
        month_passed(*old(sim), *data, *f, *old(report), *final(sim), *final(report)),
        final(sim).month_clock == old(sim).month_clock + 1,
        final(sim).year == final(sim).month_clock / 12,
        final(report).months_advanced == old(report).months_advanced + 1,
        event_ready(*final(sim)),
        line_led(*final(sim)),
{
    sim.month_clock = sim.month_clock + 1;
    sim.year = sim.month_clock / 12;
    report.months_advanced = report.months_advanced + 1;
    let ghost a = *sim;
    let ghost ra = *report;
    if sim.month_clock % 12 == 0 {
        crate::economy::year_boundary_tick(sim, data, f, report);
    }
    let ghost b = *sim;
    let ghost rb = *report;
    month_of_contract(sim, data, f, report);
    let ghost c = *sim;
    let ghost rc = *report;
    report.leader_died = false;
    let before = leader_id(sim);
    let extinct = crate::mortality::monthly_tick(sim, data);
    if extinct {
        report.dynasty_extinct = true;
    }
    report.leader_died = match before {
        Some(id) => !has_member(sim, id),
        None => false,
    };
    let ghost d = *sim;
    proof {
        assert(year_turned_if(a, *data, *f, ra, b, rb));
        assert(*report == TickReport {
            dynasty_extinct: rc.dynasty_extinct || extinct,
            leader_died: leader_gone(c, d),
            ..rc
        });
    }
    offer_beats(sim, data, report);
    proof {
        assert(month_flown(b, *data, *f, rb, c, rc));
        assert(crate::mortality::death_rolled(c, *data, d, extinct));
        assert(line_led(d));
    }
}

/// The ship after the log keeps its newest `limit` lines.
pub open spec fn log_kept(s: SimState, limit: u32, s1: SimState) -> bool {
    &&& s.log.len() <= limit ==> s1 == s
    &&& s.log.len() > limit ==> s1.log@ == s.log@.subrange(s.log.len() - limit, s.log.len() as int) && s1
        == (SimState { log: s1.log, ..s })
}

/// Month `i` of `tr` follows from the one before it.
pub open spec fn month_at(data: GameData, f: ShipFactors, tr: Seq<(SimState, TickReport)>, i: int) -> bool {
    month_passed(tr[i].0, data, f, tr[i].1, tr[i + 1].0, tr[i + 1].1)
}

/// The months an advance went through: `tr` holds the ship and the report
/// before the advance and after each month; each month follows from the
/// one before; no month but the last called for a stop.
pub open spec fn advanced_through(s0: SimState, data: GameData, f: ShipFactors, tr: Seq<(SimState, TickReport)>) -> bool {
    &&& tr.len() >= 1
    &&& tr[0] == (s0, TickReport {
        contract_completed: None,
        decision_required: false,
        dynasty_extinct: false,
        leader_died: false,
        months_advanced: 0,
        phase_changed: None,
    })
    &&& forall|i: int| 0 <= i < tr.len() - 1 ==> #[trigger] month_at(data, f, tr, i)
    &&& forall|i: int| 1 <= i < tr.len() - 1 ==> !stops(#[trigger] tr[i].1)
}

/// Advance time up to `max_months`, month by month: the month clock steps,
/// the economic year applies on each year boundary, the charter flies its
/// month, every life faces the month's death roll (a sitting leader lost is
/// reported), and a due beat or the reactive roll surfaces an event. The
/// advance stops at the end of the first month that needs the council,
/// completes the charter, ends the line or changes the charter's phase.
/// The log keeps its newest lines.
pub fn advance_months(sim: &mut SimState, data: &GameData, f: &ShipFactors, max_months: u32) -> (report: TickReport)
    requires
        old(sim).wf(),
        charter_ok(*old(sim)),
        contract_fit(*old(sim)),
        crate::economy::output_ok(*old(sim)),
        -BOUND <= old(sim).fuel_scooped_accum <= BOUND,
        world_ok(*data),
        f.wf(),
        old(sim).month_clock + max_months <= u32::MAX,
    ensures
        exists|tr: Seq<(SimState, TickReport)>|
            #[trigger] advanced_through(*old(sim), *data, *f, tr) && tr.len() == report.months_advanced + 1
                && report == tr.last().1 && log_kept(tr.last().0, data.config.log_limit, *final(sim)),
        report.months_advanced <= max_months,
        max_months > 0 ==> report.months_advanced > 0,
        report.months_advanced < max_months ==> stops(report),
        final(sim).month_clock == old(sim).month_clock + report.months_advanced,
        report.months_advanced > 0 ==> final(sim).year == final(sim).month_clock / 12,
        final(sim).log.len() <= data.config.log_limit || final(sim).log.len() <= old(sim).log.len(),
        final(sim).wf(),
        charter_ok(*final(sim)),
        contract_fit(*final(sim)),
        crate::economy::output_ok(*final(sim)),
        -BOUND <= final(sim).fuel_scooped_accum <= BOUND,
        max_months > 0 ==> line_led(*final(sim)),
        line_led(*old(sim)) ==> line_led(*final(sim)),
{
    let mut report = TickReport::default();
    let mut i: u32 = 0;
    let mut stop = false;
    let ghost mut tr: Seq<(SimState, TickReport)> = seq![(*sim, report)];
    while i < max_months && !stop
        invariant
            advanced_through(*old(sim), *data, *f, tr),
            tr.len() == i + 1,
            tr.last() == (*sim, report),
            i > 0 ==> stop == stops(tr.last().1),
            i <= max_months,
            report.months_advanced == i,
            sim.month_clock == old(sim).month_clock + i,
            old(sim).month_clock + max_months <= u32::MAX,
            i > 0 ==> sim.year == sim.month_clock / 12,
            i > 0 ==> event_ready(*sim),
            i == 0 ==> *sim == *old(sim),
            sim.wf(),
            charter_ok(*sim),
            contract_fit(*sim),
            crate::economy::output_ok(*sim),
            -BOUND <= sim.fuel_scooped_accum <= BOUND,
            world_ok(*data),
            f.wf(),
            stop == stops(report),
            i == 0 ==> !stop,
            i > 0 ==> line_led(*sim),
        decreases max_months - i,
    {
        let ghost before = tr;
        pass_month(sim, data, f, &mut report);
        proof {
            tr = before.push((*sim, report));
            assert(month_at(*data, *f, tr, i as int));
            assert forall|k: int| 0 <= k < tr.len() - 1 implies #[trigger] month_at(*data, *f, tr, k) by {
                if k < i {
                    assert(month_at(*data, *f, before, k));
                }
            }
            assert forall|k: int| 1 <= k < tr.len() - 1 implies !stops(#[trigger] tr[k].1) by {
                if k < i {
                    assert(tr[k] == before[k]);
                }
            }
        }
        stop = report.decision_required || report.contract_completed.is_some() || report.dynasty_extinct
            || report.phase_changed.is_some();
        i = i + 1;
    }
    let ghost last = *sim;
    trim_log(sim, data.config.log_limit);
    proof {
        assert(log_kept(last, data.config.log_limit, *sim));
        assert(advanced_through(*old(sim), *data, *f, tr));
    }
    report
}

/// What one year's advance does (see [`advance_year`]): the months gone
/// through as [`advanced_through`] says, at least one and at most twelve,
/// fewer only when a month called for a stop; the log keeps its newest lines.
pub open spec fn year_flown(s0: SimState, data: GameData, f: ShipFactors, s1: SimState, r: TickReport) -> bool {
    &&& exists|tr: Seq<(SimState, TickReport)>|
        #[trigger] advanced_through(s0, data, f, tr) && tr.len() == r.months_advanced + 1 && r == tr.last().1
            && log_kept(tr.last().0, data.config.log_limit, s1)
    &&& 0 < r.months_advanced <= 12
    &&& r.months_advanced < 12 ==> stops(r)
    &&& s1.month_clock == s0.month_clock + r.months_advanced
    &&& s1.year == s1.month_clock / 12
}

/// Advance up to one year's worth of months (see [`advance_months`]). The
/// year ends with every invariant of a simulated year in force: each 0-1
/// fraction in range, food and credits never negative, and a living line
/// headed by someone.
pub fn advance_year(sim: &mut SimState, data: &GameData, f: &ShipFactors) -> (report: TickReport)
    requires
        old(sim).wf(),
        charter_ok(*old(sim)),
        contract_fit(*old(sim)),
        crate::economy::output_ok(*old(sim)),
        -BOUND <= old(sim).fuel_scooped_accum <= BOUND,
        world_ok(*data),
        f.wf(),
        old(sim).month_clock + 12 <= u32::MAX,
    ensures
        exists|tr: Seq<(SimState, TickReport)>|
            #[trigger] advanced_through(*old(sim), *data, *f, tr) && tr.len() == report.months_advanced + 1
                && report == tr.last().1 && log_kept(tr.last().0, data.config.log_limit, *final(sim)),
        crate::voyage::year_invariants(*final(sim)),
        year_flown(*old(sim), *data, *f, *final(sim), report),
        report.months_advanced <= 12,
        report.months_advanced > 0,
        report.months_advanced < 12 ==> stops(report),
        final(sim).month_clock == old(sim).month_clock + report.months_advanced,
        final(sim).year == final(sim).month_clock / 12,
        final(sim).wf(),
        charter_ok(*final(sim)),
        contract_fit(*final(sim)),
        crate::economy::output_ok(*final(sim)),
        -BOUND <= final(sim).fuel_scooped_accum <= BOUND,
{
    advance_months(sim, data, f, 12)
}

} // verus!
