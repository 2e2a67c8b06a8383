//! What a chosen event outcome does to the ship, and how the council picks
//! one when it delegates the choice.

use vstd::prelude::*;

use crate::config::{bounded, GameConfig};
use crate::contract::{first_return, jump_to_return, months_before, timeline_ok};
use crate::data::{Complication, EventOutcome, EventTemplate, FactionLossKind, GameData};
use crate::deltas::PopulationDelta;
use crate::effects::{
    aboard_from, lemma_aboard_from, apply_approval_deltas, apply_reputation_deltas, apply_subsystem_deltas,
    approvals_after, approvals_ok, rep_after, subs_after, subs_ok,
};
use crate::event_resolver::{active, active_complication_index, charter_ok, rolled_count, rolled_pop_count};
use crate::factions::{
    host_for, joined, lemma_approval_kept, lemma_host_in, lemma_smallest, merged, departed, sat_sub,
    smallest, smallest_adjusted, spill_deltas,
};
use crate::fixed::{clamp_i128, floor0, mul_wide, scale, tdiv_i128, BOUND, ONE};
use crate::mortality::{claim, event_claim};
use crate::queries::{fires, rep_value, reps_ok};
use crate::state::{ActiveContract, LogEntry, PopulationState, ScheduledEvent, ShipState, SimState};
use crate::subsystems::{buffered_deltas, defs_ok, harm_factor, soft_population, soft_resource, soft_ship};
use crate::util::{is_blank, join3, listed};

verus! {

// ---------------------------------------------------------------- scoring

/// An outcome whose numbers the scoring rule can carry.
pub open spec fn outcome_ok(o: EventOutcome) -> bool {
    &&& bounded(o.resource_delta.credits as int)
    &&& bounded(o.resource_delta.energy as int)
    &&& bounded(o.resource_delta.minerals as int)
    &&& bounded(o.resource_delta.food as int)
    &&& bounded(o.ship_delta.hull_integrity as int)
    &&& bounded(o.ship_delta.life_support as int)
    &&& bounded(o.population_delta.morale as int)
    &&& bounded(o.population_delta.unity as int)
    &&& o.long_term_consequences.len() <= BOUND
}

/// An outcome's auto-resolution score, in millionths of a point: food
/// (doubled when the stores are low), hull and air (weighed ten times
/// heavier when the ship is in distress), credits, energy, minerals, morale
/// and unity, less a hundred points for every lasting consequence.
pub open spec fn score(o: EventOutcome, sim: SimState, config: GameConfig) -> int {
    let food_weight: int = if sim.resources.food < config.low_food_threshold {
        2
    } else {
        1
    };
    let distressed = sim.ship.hull_integrity < config.hull_warning_threshold || sim.ship.life_support
        < config.life_support_warning_threshold;
    let ship_weight: int = if distressed {
        1000
    } else {
        100
    };
    o.resource_delta.food * food_weight * ONE + (o.ship_delta.hull_integrity
        + o.ship_delta.life_support) * ship_weight + o.resource_delta.credits * 100_000
        + o.resource_delta.energy * 200_000 + o.resource_delta.minerals * 300_000
        + o.population_delta.morale * 500 + o.population_delta.unity * 600 - 100 * ONE
        * o.long_term_consequences.len()
}

/// See [`score`]. Higher is better.
pub fn score_outcome(outcome: &EventOutcome, sim: &SimState, config: &GameConfig) -> (r: i128)
    requires
        outcome_ok(*outcome),
    ensures
        r == score(*outcome, *sim, *config),
{
    let food_weight: i128 = if sim.resources.food < config.low_food_threshold {
        2
    } else {
        1
    };
    let distressed = sim.ship.hull_integrity < config.hull_warning_threshold || sim.ship.life_support
        < config.life_support_warning_threshold;
    let ship_weight: i128 = if distressed {
        1000
    } else {
        100
    };
    let o = outcome;
    let n = o.long_term_consequences.len() as i128;
    proof {
        assert(-BOUND * 2 * ONE <= (o.resource_delta.food as int) * food_weight * ONE <= BOUND * 2 * ONE) by (nonlinear_arith)
            requires
                -BOUND <= o.resource_delta.food <= BOUND,
                1 <= food_weight <= 2,
        ;
        assert(-2 * BOUND * 1000 <= (o.ship_delta.hull_integrity + o.ship_delta.life_support) * ship_weight <= 2 * BOUND * 1000) by (nonlinear_arith)
            requires
                -BOUND <= o.ship_delta.hull_integrity <= BOUND,
                -BOUND <= o.ship_delta.life_support <= BOUND,
                100 <= ship_weight <= 1000,
        ;
    }
    (o.resource_delta.food as i128) * food_weight * (ONE as i128) + ((o.ship_delta.hull_integrity as i128)
        + (o.ship_delta.life_support as i128)) * ship_weight + (o.resource_delta.credits as i128)
        * 100_000 + (o.resource_delta.energy as i128) * 200_000 + (o.resource_delta.minerals as i128)
        * 300_000 + (o.population_delta.morale as i128) * 500 + (o.population_delta.unity as i128)
        * 600 - 100_000_000 * n
}

// ---------------------------------------------------------------- the pieces of a choice

/// The twist riding the event lands its toll on this choice: one rides, and
/// it names no choices or names this one.
pub open spec fn toll_lands(t: EventTemplate, k: Option<int>, o: EventOutcome) -> bool {
    k matches Some(ki) && (t.complications@[ki].applies_to_outcomes.len() == 0 || listed(
        t.complications@[ki].applies_to_outcomes@,
        o.id@,
    ))
}

/// The follow-up an outcome schedules, due `delay` years from this one.
pub open spec fn followup_seq(sim: SimState, o: EventOutcome) -> Seq<ScheduledEvent> {
    match o.schedule_followup {
        Some(f) => seq![
            ScheduledEvent { template_id: f.template_id, fire_year: (sim.year + f.delay_years) as u32 },
        ],
        None => Seq::empty(),
    }
}

/// The component an outcome drops into the hold.
pub open spec fn grant_seq(o: EventOutcome) -> Seq<String> {
    match o.grant_component {
        Some(c) => seq![c],
        None => Seq::empty(),
    }
}

/// The log line of an outcome: its own, else the event's title and the
/// choice's label.
pub open spec fn outcome_text(t: EventTemplate, o: EventOutcome) -> Seq<char> {
    if o.log@.len() == 0 {
        t.title@ + ": "@ + o.label@
    } else {
        o.log@
    }
}

/// The people an outcome drives off the ship: the one it names, if aboard,
/// else the smallest aboard.
pub open spec fn loss_target(fs: Seq<crate::state::FactionState>, o: EventOutcome) -> Option<int> {
    match o.faction_loss {
        None => None,
        Some(_) => match o.faction_loss_id {
            Some(id) => aboard_from(fs, id@, 0),
            None => smallest(fs),
        },
    }
}

/// The peoples after the loss.
pub open spec fn after_loss(fs: Seq<crate::state::FactionState>, o: EventOutcome) -> Seq<
    crate::state::FactionState,
> {
    match loss_target(fs, o) {
        Some(i) => fs.update(i, departed(fs[i])),
        None => fs,
    }
}

/// The people an outcome folds in, with its host.
pub open spec fn merge_pair(fs: Seq<crate::state::FactionState>, o: EventOutcome) -> Option<(int, int)> {
    match o.faction_merge_id {
        None => None,
        Some(id) => match aboard_from(fs, id@, 0) {
            None => None,
            Some(i) => match host_for(fs, i) {
                None => None,
                Some(h) => Some((i, h)),
            },
        },
    }
}

/// The peoples after the fold.
pub open spec fn after_merge(fs: Seq<crate::state::FactionState>, o: EventOutcome) -> Seq<
    crate::state::FactionState,
> {
    match merge_pair(fs, o) {
        Some((i, h)) => fs.update(i, merged(fs[i])).update(h, joined(fs[h], fs[i].members)),
        None => fs,
    }
}

/// The peoples after everything an outcome does to them, in order: the
/// loss, the fold, the named approval shifts, the rivals' resentment, the
/// allies' goodwill, and the smallest deck's share.
pub open spec fn factions_after(fs0: Seq<crate::state::FactionState>, data: GameData, o: EventOutcome) -> Seq<
    crate::state::FactionState,
> {
    approvals_moved(after_merge(after_loss(fs0, o), o), data, o)
}

/// The peoples after an outcome's approval shifts, in order: the named
/// shifts, the rivals' resentment, the allies' goodwill, and the smallest
/// deck's share.
pub open spec fn approvals_moved(fs2: Seq<crate::state::FactionState>, data: GameData, o: EventOutcome) -> Seq<
    crate::state::FactionState,
> {
    let fs3 = approvals_after(fs2, o.faction_approval_deltas@);
    let fs4 = approvals_after(
        fs3,
        spill_deltas(fs3, data, o.faction_approval_deltas@, data.config.rival_approval_spillover as int, true),
    );
    let fs5 = approvals_after(
        fs4,
        spill_deltas(fs4, data, o.faction_approval_deltas@, data.config.ally_approval_spillover as int, false),
    );
    if o.faction_approval_smallest != 0 {
        smallest_adjusted(fs5, o.faction_approval_smallest)
    } else {
        fs5
    }
}

/// How many lines the loss and the fold log.
pub open spec fn politics_lines(fs0: Seq<crate::state::FactionState>, o: EventOutcome) -> int {
    (if loss_target(fs0, o) is Some {
        1int
    } else {
        0
    }) + (if merge_pair(after_loss(fs0, o), o) is Some {
        1int
    } else {
        0
    })
}

/// The population after a loss: the departing people's members leave the
/// head count.
pub open spec fn population_after_loss(
    p: PopulationState,
    fs0: Seq<crate::state::FactionState>,
    o: EventOutcome,
) -> PopulationState {
    match loss_target(fs0, o) {
        Some(i) => PopulationState { count: sat_sub(p.count as int, fs0[i].members as int) as u32, ..p },
        None => p,
    }
}

/// The charter turned for home early.
pub open spec fn homeward(c0: Option<ActiveContract>) -> Option<ActiveContract> {
    match c0 {
        None => None,
        Some(c) => match first_return(c.phases@, 0) {
            None => Some(c),
            Some(ri) => {
                let start = months_before(c.phases@, ri);
                if c.months_elapsed >= start {
                    Some(c)
                } else {
                    Some(
                        ActiveContract {
                            months_elapsed: start as u32,
                            phase_index: ri as usize,
                            phase: c.phases@[ri].kind,
                            ..c
                        },
                    )
                }
            },
        },
    }
}

/// The charter's objective moved by `delta` of its target, never below zero.
pub open spec fn objective_shifted(c0: Option<ActiveContract>, delta: i64) -> Option<ActiveContract> {
    if delta == 0 {
        c0
    } else {
        match c0 {
            Some(c) => Some(
                ActiveContract {
                    objective_progress: floor0(
                        c.objective_progress + scale(delta as int, c.objective_target as int),
                    ) as i64,
                    ..c
                },
            ),
            None => None,
        }
    }
}

/// The charter after an outcome: turned home if the outcome forces it, then
/// its objective moved.
pub open spec fn contract_after(c0: Option<ActiveContract>, o: EventOutcome) -> Option<ActiveContract> {
    objective_shifted(
        if o.force_return {
            homeward(c0)
        } else {
            c0
        },
        o.objective_progress_delta,
    )
}

fn land_deltas(sim: &mut SimState, data: &GameData, family: &String, o: &EventOutcome) -> (count: i32)
    requires
        old(sim).wf(),
        data.config.wf(),
        defs_ok(data.subsystems@),
    ensures
        ({
            let s0 = *old(sim);
            let f = harm_factor(s0, *data, family@);
            let pd = soft_population(o.population_delta, f);
            let rc = rolled_count(pd.count, data.config.real_time, s0.rolls);
            &&& count == rc.0
            &&& final(sim).resources == s0.resources.applied(soft_resource(o.resource_delta, f))
            &&& final(sim).ship == s0.ship.applied(soft_ship(o.ship_delta, f))
            &&& final(sim).population == s0.population.applied(PopulationDelta { count: rc.0, ..pd })
            &&& final(sim).rolls == rc.1
            &&& *final(sim) == (SimState {
                resources: final(sim).resources,
                ship: final(sim).ship,
                population: final(sim).population,
                rolls: final(sim).rolls,
                ..s0
            })
        }),
        final(sim).wf(),
{
    let (rd, sd, pd) = buffered_deltas(sim, data, family, o.resource_delta, o.ship_delta, o.population_delta);
    let count = rolled_pop_count(pd.count, data.config.real_time, &mut sim.rolls);
    let pd2 = PopulationDelta { count, ..pd };
    sim.resources.apply(&rd);
    sim.ship.apply(&sd);
    sim.population.apply(&pd2);
    count
}

fn record_outcome(sim: &mut SimState, t: &EventTemplate, o: &EventOutcome)
    requires
        o.schedule_followup matches Some(f) ==> old(sim).year + f.delay_years <= u32::MAX,
    ensures
        ({
            let s0 = *old(sim);
            &&& final(sim).consequences@ == s0.consequences@ + o.long_term_consequences@
            &&& forall|key: Seq<char>|
                #[trigger] rep_value(final(sim).reputation@, key) == rep_after(
                    rep_value(s0.reputation@, key),
                    o.reputation_deltas@,
                    key,
                )
            &&& reps_ok(s0.reputation@) ==> reps_ok(final(sim).reputation@)
            &&& final(sim).scheduled_events@ == s0.scheduled_events@ + followup_seq(s0, *o)
            &&& final(sim).ship.salvage@ == s0.ship.salvage@ + grant_seq(*o)
            &&& final(sim).ship == (ShipState { salvage: final(sim).ship.salvage, ..s0.ship })
            &&& final(sim).log.len() == s0.log.len() + 1
            &&& final(sim).log@.subrange(0, s0.log.len() as int) == s0.log@
            &&& final(sim).log@[s0.log.len() as int].text@ == outcome_text(*t, *o)
            &&& final(sim).log@[s0.log.len() as int].month_clock == s0.month_clock
            &&& *final(sim) == (SimState {
                consequences: final(sim).consequences,
                reputation: final(sim).reputation,
                scheduled_events: final(sim).scheduled_events,
                ship: final(sim).ship,
                log: final(sim).log,
                ..s0
            })
        }),
{
    let ghost s0 = *sim;
    let mut k: usize = 0;
    while k < o.long_term_consequences.len()
        invariant
            k <= o.long_term_consequences.len(),
            sim.consequences@ == s0.consequences@ + o.long_term_consequences@.subrange(0, k as int),
            *sim == (SimState { consequences: sim.consequences, ..s0 }),
        decreases o.long_term_consequences.len() - k,
    {
        sim.consequences.push(o.long_term_consequences[k].clone());
        proof {
            assert(o.long_term_consequences@.subrange(0, k + 1) =~= o.long_term_consequences@.subrange(
                0,
                k as int,
            ).push(o.long_term_consequences@[k as int]));
        }
        k = k + 1;
    }
    proof {
        assert(o.long_term_consequences@.subrange(0, o.long_term_consequences.len() as int)
            =~= o.long_term_consequences@);
    }
    let ghost s1 = *sim;
    apply_reputation_deltas(sim, &o.reputation_deltas);
    match &o.schedule_followup {
        Some(f) => {
            let year = sim.year();
            sim.scheduled_events.push(
                ScheduledEvent { template_id: f.template_id.clone(), fire_year: year + f.delay_years },
            );
        },
        None => {},
    }
    match &o.grant_component {
        Some(c) => {
            sim.ship.salvage.push(c.clone());
        },
        None => {},
    }
    proof {
        assert(sim.scheduled_events@ =~= s0.scheduled_events@ + followup_seq(s0, *o));
        assert(sim.ship.salvage@ =~= s0.ship.salvage@ + grant_seq(*o));
    }
    let text = if is_blank(&o.log) {
        join3(t.title.as_str(), ": ", o.label.as_str())
    } else {
        o.log.clone()
    };
    proof {
        reveal_strlit(": ");
    }
    let ghost s2 = *sim;
    sim.push_log(text);
    proof {
        assert(sim.log@.subrange(0, s0.log.len() as int) =~= s0.log@);
    }
}

fn leave_and_fold(sim: &mut SimState, data: &GameData, o: &EventOutcome)
    requires
        old(sim).wf(),
    ensures
        ({
            let s0 = *old(sim);
            &&& final(sim).factions@ == after_merge(after_loss(s0.factions@, *o), *o)
            &&& final(sim).population == population_after_loss(s0.population, s0.factions@, *o)
            &&& final(sim).log.len() == s0.log.len() + politics_lines(s0.factions@, *o)
            &&& final(sim).log@.subrange(0, s0.log.len() as int) == s0.log@
            &&& *final(sim) == (SimState {
                factions: final(sim).factions,
                population: final(sim).population,
                log: final(sim).log,
                ..s0
            })
        }),
        final(sim).wf(),
{
    let ghost s0 = *sim;
    match o.faction_loss {
        Some(kind) => match &o.faction_loss_id {
            Some(id) => sim.apply_faction_loss_by_id(data, kind, id.as_str()),
            None => sim.apply_faction_loss(data, kind),
        },
        None => {},
    }
    let ghost s2 = *sim;
    proof {
        lemma_smallest(s0.factions@);
        match &o.faction_loss_id {
            Some(id) => lemma_aboard_from(s0.factions@, id@, 0),
            None => {},
        }
        assert(approvals_ok(s0.factions@));
        match loss_target(s0.factions@, *o) {
            Some(i) => lemma_approval_kept(s0.factions@, i, departed(s0.factions@[i])),
            None => {},
        }
    }
    assert(s2.factions@ == after_loss(s0.factions@, *o));
    assert(s2.population == population_after_loss(s0.population, s0.factions@, *o));
    assert(approvals_ok(s2.factions@));
    match &o.faction_merge_id {
        Some(id) => sim.apply_faction_merge(data, id.as_str()),
        None => {},
    }
    proof {
        match &o.faction_merge_id {
            Some(id) => {
                lemma_aboard_from(s2.factions@, id@, 0);
                match aboard_from(s2.factions@, id@, 0) {
                    Some(i) => {
                        lemma_host_in(s2.factions@, i, s2.factions.len() as int);
                        match host_for(s2.factions@, i) {
                            Some(h) => {
                                let fs = s2.factions@;
                                lemma_approval_kept(fs, i, merged(fs[i]));
                                lemma_approval_kept(fs.update(i, merged(fs[i])), h, joined(fs[h], fs[i].members));
                            },
                            None => {},
                        }
                    },
                    None => {},
                }
            },
            None => {},
        }
        assert(sim.log@.subrange(0, s0.log.len() as int) =~= s0.log@) by {
            assert(sim.log@.subrange(0, s2.log.len() as int) == s2.log@);
            assert(s2.log@.subrange(0, s0.log.len() as int) == s0.log@);
            assert(sim.log@.subrange(0, s0.log.len() as int) =~= sim.log@.subrange(
                0,
                s2.log.len() as int,
            ).subrange(0, s0.log.len() as int));
        }
    }
    assert(sim.factions@ == after_merge(s2.factions@, *o));
    assert(approvals_ok(sim.factions@));
}

fn move_approvals(sim: &mut SimState, data: &GameData, o: &EventOutcome)
    requires
        data.config.wf(),
    ensures
        final(sim).factions@ == approvals_moved(old(sim).factions@, *data, *o),
        approvals_ok(old(sim).factions@) ==> approvals_ok(final(sim).factions@),
        *final(sim) == (SimState { factions: final(sim).factions, ..*old(sim) }),
{
    apply_approval_deltas(sim, &o.faction_approval_deltas);
    sim.apply_rival_approval_spillover(data, &o.faction_approval_deltas);
    sim.apply_ally_approval_spillover(data, &o.faction_approval_deltas);
    if o.faction_approval_smallest != 0 {
        sim.adjust_smallest_faction_approval(o.faction_approval_smallest);
    }
}

fn shift_objective(sim: &mut SimState, delta: i64)
    ensures
        final(sim).contract == objective_shifted(old(sim).contract, delta),
        *final(sim) == (SimState { contract: final(sim).contract, ..*old(sim) }),
{
    if delta != 0 {
        match sim.contract.as_mut() {
            Some(c) => {
                let p = mul_wide(delta, c.objective_target);
                let shift = tdiv_i128(p, ONE as i128);
                let moved = (c.objective_progress as i128) + shift;
                c.objective_progress = clamp_i128(moved, 0, i64::MAX);
            },
            None => {},
        }
    }
}

fn politics(sim: &mut SimState, data: &GameData, o: &EventOutcome)
    requires
        old(sim).wf(),
        data.config.wf(),
        charter_ok(*old(sim)),
    ensures
        ({
            let s0 = *old(sim);
            &&& final(sim).contract == contract_after(s0.contract, *o)
            &&& final(sim).factions@ == factions_after(s0.factions@, *data, *o)
            &&& final(sim).population == population_after_loss(s0.population, s0.factions@, *o)
            &&& final(sim).subsystems@ == subs_after(s0.subsystems@, o.subsystem_deltas@)
            &&& final(sim).log.len() == s0.log.len() + politics_lines(s0.factions@, *o)
            &&& final(sim).log@.subrange(0, s0.log.len() as int) == s0.log@
            &&& *final(sim) == (SimState {
                contract: final(sim).contract,
                factions: final(sim).factions,
                population: final(sim).population,
                subsystems: final(sim).subsystems,
                log: final(sim).log,
                ..s0
            })
        }),
        final(sim).wf(),
{
    let ghost s0 = *sim;
    if o.force_return {
        jump_to_return(sim);
    }
    assert(sim.contract == (if o.force_return {
        homeward(s0.contract)
    } else {
        s0.contract
    }));
    leave_and_fold(sim, data, o);
    let ghost s2 = *sim;
    apply_subsystem_deltas(sim, &o.subsystem_deltas);
    move_approvals(sim, data, o);
    shift_objective(sim, o.objective_progress_delta);
    assert(subs_ok(s2.subsystems@));
}

fn land_toll(sim: &mut SimState, c: &Complication)
    requires
        old(sim).wf(),
    ensures
        ({
            let s0 = *old(sim);
            &&& final(sim).resources == s0.resources.applied(c.resource_delta)
            &&& final(sim).ship == s0.ship.applied(c.ship_delta)
            &&& final(sim).population == s0.population.applied(c.population_delta)
            &&& final(sim).subsystems@ == subs_after(s0.subsystems@, c.subsystem_deltas@)
            &&& final(sim).log.len() == s0.log.len() + (if c.log@.len() > 0 {
                1int
            } else {
                0
            })
            &&& final(sim).log@.subrange(0, s0.log.len() as int) == s0.log@
            &&& *final(sim) == (SimState {
                resources: final(sim).resources,
                ship: final(sim).ship,
                population: final(sim).population,
                subsystems: final(sim).subsystems,
                log: final(sim).log,
                ..s0
            })
        }),
        final(sim).wf(),
{
    let ghost s0 = *sim;
    sim.resources.apply(&c.resource_delta);
    sim.ship.apply(&c.ship_delta);
    sim.population.apply(&c.population_delta);
    apply_subsystem_deltas(sim, &c.subsystem_deltas);
    if !is_blank(&c.log) {
        sim.push_log(c.log.clone());
    }
    proof {
        assert(sim.log@.subrange(0, s0.log.len() as int) =~= s0.log@);
    }
}

} // verus!

verus! {

/// What `apply_outcome` owes when choice `idx` of `t` is applied to `s0`:
/// the harm of the choice softened by the module buffering the family, the
/// head-count change rolled within its band, a heavy loss perhaps claiming a
/// named character, the choice's deeds, reputation, follow-up and salvage
/// recorded and its line logged, the charter turned home and its objective
/// moved as the choice says, peoples lost, folded and their approval moved,
/// the modules wounded or mended, the riding twist's toll landed when it
/// applies to this choice, the firing counted, and the event cleared.
pub open spec fn outcome_applied(s0: SimState, data: GameData, t: EventTemplate, idx: int, s1: SimState) -> bool {
    let o = t.outcomes@[idx];
    let cfg = data.config;
    let f = harm_factor(s0, data, t.family@);
    let pd = soft_population(o.population_delta, f);
    let rc = rolled_count(pd.count, cfg.real_time, s0.rolls);
    let lost = (if rc.0 < 0 {
        -rc.0
    } else {
        0
    }) as u32;
    let cl = claim(s0.crew@, s0.dynasty.members@, rc.1, cfg.mortality, lost);
    let k = active(s0, t);
    let toll = toll_lands(t, k, o);
    let c = t.complications@[k.unwrap()];
    let res1 = s0.resources.applied(soft_resource(o.resource_delta, f));
    let ship1 = s0.ship.applied(soft_ship(o.ship_delta, f));
    let pop2 = population_after_loss(
        s0.population.applied(PopulationDelta { count: rc.0, ..pd }),
        s0.factions@,
        o,
    );
    let lines_before = s0.log.len() + cl.3;
    &&& s1.resources == (if toll {
        res1.applied(c.resource_delta)
    } else {
        res1
    })
    &&& s1.ship == (ShipState {
        salvage: s1.ship.salvage,
        ..(if toll {
            ship1.applied(c.ship_delta)
        } else {
            ship1
        })
    })
    &&& s1.ship.salvage@ == s0.ship.salvage@ + grant_seq(o)
    &&& s1.population == (if toll {
        pop2.applied(c.population_delta)
    } else {
        pop2
    })
    &&& s1.subsystems@ == subs_after(
        subs_after(s0.subsystems@, o.subsystem_deltas@),
        if toll {
            c.subsystem_deltas@
        } else {
            Seq::empty()
        },
    )
    &&& s1.crew@ == cl.0
    &&& s1.dynasty.members@ == cl.1
    &&& s1.dynasty == (crate::state::Dynasty { members: s1.dynasty.members, ..s0.dynasty })
    &&& s1.rolls == cl.2
    &&& s1.consequences@ == s0.consequences@ + o.long_term_consequences@
    &&& (forall|key: Seq<char>|
        #[trigger] rep_value(s1.reputation@, key) == rep_after(
            rep_value(s0.reputation@, key),
            o.reputation_deltas@,
            key,
        ))
    &&& s1.scheduled_events@ == s0.scheduled_events@ + followup_seq(s0, o)
    &&& s1.factions@ == factions_after(s0.factions@, data, o)
    &&& s1.contract == contract_after(s0.contract, o)
    &&& (forall|key: Seq<char>|
        #[trigger] fires(s1.event_fire_counts@, key) == if key == t.id@ {
            crate::fixed::bump(fires(s0.event_fire_counts@, key))
        } else {
            fires(s0.event_fire_counts@, key)
        })
    &&& s1.pending_event is None
    &&& s1.log.len() == lines_before + 1 + politics_lines(s0.factions@, o) + (if toll && c.log@.len() > 0 {
        1int
    } else {
        0
    })
    &&& s1.log@.subrange(0, s0.log.len() as int) == s0.log@
    &&& s1.log@[lines_before].text@ == outcome_text(t, o)
    &&& s1 == (SimState {
        resources: s1.resources,
        ship: s1.ship,
        population: s1.population,
        subsystems: s1.subsystems,
        crew: s1.crew,
        dynasty: s1.dynasty,
        rolls: s1.rolls,
        consequences: s1.consequences,
        reputation: s1.reputation,
        scheduled_events: s1.scheduled_events,
        factions: s1.factions,
        contract: s1.contract,
        event_fire_counts: s1.event_fire_counts,
        pending_event: s1.pending_event,
        log: s1.log,
        ..s0
    })
}

/// Apply choice `outcome_index` of a pending event to the ship and log it
/// (see [`outcome_applied`]); an index past the choices changes nothing.
pub fn apply_outcome(sim: &mut SimState, data: &GameData, template: &EventTemplate, outcome_index: usize)
    requires
        old(sim).wf(),
        charter_ok(*old(sim)),
        data.config.wf(),
        defs_ok(data.subsystems@),
        outcome_index < template.outcomes.len() ==> (template.outcomes@[outcome_index as int].schedule_followup matches Some(
            f,
        ) ==> old(sim).year + f.delay_years <= u32::MAX),
    ensures
        outcome_index >= template.outcomes.len() ==> *final(sim) == *old(sim),
        outcome_index < template.outcomes.len() ==> outcome_applied(
            *old(sim),
            *data,
            *template,
            outcome_index as int,
            *final(sim),
        ),
        final(sim).wf(),
{
    if outcome_index >= template.outcomes.len() {
        return;
    }
    let ghost s0 = *sim;
    let o = &template.outcomes[outcome_index];
    let complication = active_complication_index(sim, template);
    let count = land_deltas(sim, data, &template.family, o);
    let ghost sa = *sim;
    let lost: u32 = if count < 0 {
        (-(count as i64)) as u32
    } else {
        0
    };
    event_claim(sim, data, lost);
    let ghost sb = *sim;
    record_outcome(sim, template, o);
    let ghost sc = *sim;
    proof {
        assert(charter_ok(sc));
        assert(sc.wf());
    }
    politics(sim, data, o);
    let ghost sd = *sim;
    let toll = match complication {
        Some(k) => {
            let c = &template.complications[k];
            c.applies_to_outcomes.len() == 0 || crate::util::contains(&c.applies_to_outcomes, &o.id)
        },
        None => false,
    };
    if toll {
        match complication {
            Some(k) => land_toll(sim, &template.complications[k]),
            None => {},
        }
    }
    let ghost se = *sim;
    sim.record_fire(template.id.as_str());
    sim.pending_event = None;
    proof {
        let lb = s0.log.len() + (sb.log.len() - sa.log.len());
        assert(sb.log@.subrange(0, sa.log.len() as int) == sa.log@);
        assert(sc.log@.subrange(0, sb.log.len() as int) == sb.log@);
        assert(sd.log@.subrange(0, sc.log.len() as int) == sc.log@);
        assert(se.log@.subrange(0, sd.log.len() as int) == sd.log@);
        assert(sd.log@[lb] == sc.log@[lb]) by {
            assert(sd.log@.subrange(0, sc.log.len() as int)[lb] == sc.log@[lb]);
        }
        assert(se.log@[lb] == sd.log@[lb]) by {
            assert(se.log@.subrange(0, sd.log.len() as int)[lb] == sd.log@[lb]);
        }
        assert(sim.log@.subrange(0, s0.log.len() as int) =~= s0.log@) by {
            assert(sim.log@.subrange(0, s0.log.len() as int) =~= se.log@.subrange(0, sd.log.len() as int).subrange(0, sc.log.len() as int).subrange(0, sb.log.len() as int).subrange(0, sa.log.len() as int));
        }
    }
}

/// The index of the best score among the first `n` (the last best on a tie;
/// the first when there are none).
pub open spec fn best_in(scores: Seq<int>, n: int) -> int
    decreases n,
{
    if n <= 1 {
        0
    } else {
        let b = best_in(scores, n - 1);
        if scores[n - 1] >= scores[b] {
            n - 1
        } else {
            b
        }
    }
}

proof fn lemma_best_in(scores: Seq<int>, n: int)
    requires
        1 <= n <= scores.len(),
    ensures
        0 <= best_in(scores, n) < n,
        forall|j: int| 0 <= j < n ==> #[trigger] scores[j] <= scores[best_in(scores, n)],
    decreases n,
{
    if n > 1 {
        lemma_best_in(scores, n - 1);
    }
}

/// Every choice's score, in order.
pub open spec fn outcome_scores(t: EventTemplate, sim: SimState, config: GameConfig) -> Seq<int> {
    Seq::new(t.outcomes@.len(), |k: int| score(t.outcomes@[k], sim, config))
}

/// The choice the council takes when it delegates: the best-scoring one.
pub open spec fn best_outcome(t: EventTemplate, sim: SimState, config: GameConfig) -> int {
    best_in(outcome_scores(t, sim, config), t.outcomes.len() as int)
}

/// Pick the best-scoring outcome and apply it; returns its label (empty
/// for an event with no choices).
pub fn auto_resolve(sim: &mut SimState, data: &GameData, template: &EventTemplate) -> (label: String)
    requires
        old(sim).wf(),
        charter_ok(*old(sim)),
        data.config.wf(),
        defs_ok(data.subsystems@),
        forall|k: int| 0 <= k < template.outcomes.len() ==> outcome_ok(#[trigger] template.outcomes@[k]),
        forall|k: int|
            0 <= k < template.outcomes.len() ==> ((#[trigger] template.outcomes@[k]).schedule_followup matches Some(
                f,
            ) ==> old(sim).year + f.delay_years <= u32::MAX),
    ensures
        ({
            let best = best_outcome(*template, *old(sim), data.config);
            if template.outcomes.len() == 0 {
                label@ == Seq::<char>::empty() && *final(sim) == *old(sim)
            } else {
                &&& label@ == template.outcomes@[best].label@
                &&& outcome_applied(*old(sim), *data, *template, best, *final(sim))
                &&& 0 <= best < template.outcomes.len()
                &&& forall|k: int|
                    0 <= k < template.outcomes.len() ==> score(#[trigger] template.outcomes@[k], *old(sim), data.config)
                        <= score(template.outcomes@[best], *old(sim), data.config)
            }
        }),
        final(sim).wf(),
{
    let ghost scores = outcome_scores(*template, *sim, data.config);
    let n = template.outcomes.len();
    if n == 0 {
        return String::new();
    }
    let mut best: usize = 0;
    let mut best_score = score_outcome(&template.outcomes[0], sim, &data.config);
    let mut i: usize = 1;
    while i < n
        invariant
            1 <= i <= n == template.outcomes.len(),
            scores == outcome_scores(*template, *sim, data.config),
            forall|k: int| 0 <= k < template.outcomes.len() ==> outcome_ok(#[trigger] template.outcomes@[k]),
            best as int == best_in(scores, i as int),
            best_score == scores[best as int],
        decreases n - i,
    {
        let s = score_outcome(&template.outcomes[i], sim, &data.config);
        if s >= best_score {
            best = i;
            best_score = s;
        }
        i = i + 1;
    }
    proof {
        lemma_best_in(scores, n as int);
        assert forall|k: int| 0 <= k < template.outcomes.len() implies score(
            #[trigger] template.outcomes@[k],
            *old(sim),
            data.config,
        ) <= score(template.outcomes@[best as int], *old(sim), data.config) by {
            assert(scores[k] <= scores[best_in(scores, n as int)]);
        }
    }
    let label = template.outcomes[best].label.clone();
    apply_outcome(sim, data, template, best);
    label
}

} // verus!
