//! The campaign skeleton's beats: the moments a voyage surfaces when the
//! ship's state, its calendar or its charter says something is worth telling.
//! Each firer returns whether it replaced the month's reactive roll.

use vstd::prelude::*;

use crate::config::{CampaignSkeletonConfig, GameConfig};
use crate::contract::months_total;
use crate::data::{ContractPhase, GameData};
use crate::fixed::bump;
use crate::event_resolver::events_ok;
use crate::fixed::{cdiv, ONE};
use crate::state::{leader_index, ActiveContract, CampaignBeat, Dynasty, ScheduledEvent, SimState};
use crate::config::SubsystemBeat;
use crate::subsystems::state_of;
use crate::util::listed;
use crate::queries::rep_value;
use crate::voyage::clear_majority;
use crate::tick::{event_forced, force_event_beat, keeps_watch};
use crate::text::{str_before, text_before};
use crate::subsystems::defs_ok;
use crate::tick::{
    event_ready, events_fit, family_forced, force_family_beat, TickReport,
};

verus! {

/// The catalog and knobs a beat leans on are in order.
pub open spec fn beats_ok(data: GameData) -> bool {
    &&& data.config.wf()
    &&& defs_ok(data.subsystems@)
    &&& events_ok(data)
    &&& events_fit(data)
}

/// The charter under way.
pub open spec fn charter_of(s: SimState) -> ActiveContract {
    s.contract.unwrap()
}

/// The ship with its charter replaced by `c`.
pub open spec fn recharter(s: SimState, c: ActiveContract) -> SimState {
    SimState { contract: Some(c), ..s }
}

/// What a beat that fired did: the ship marked as `marked` says, then an
/// event forced from `fam`.
pub open spec fn beat_fired(
    marked: SimState,
    data: GameData,
    fam: Seq<char>,
    r0: TickReport,
    s1: SimState,
    r1: TickReport,
) -> bool {
    family_forced(marked, data, fam, r0, s1, r1)
}

// ---------------------------------------------------------------- thresholds crossed

/// Whether cultural drift has reached the ladder's next rung.
pub open spec fn drift_crossed(s: SimState, k: CampaignSkeletonConfig) -> bool {
    s.contract matches Some(c) && (c.drift_beats_fired as int) < k.drift_beats.len()
        && s.population.cultural_drift >= k.drift_beats@[c.drift_beats_fired as int]
}

/// What [`fire_drift_beat`] does: whether it fires, and what the ship and the
/// report become.
pub open spec fn drift_beat_step(
    s0: SimState,
    data: GameData,
    r0: TickReport,
    s1: SimState,
    r1: TickReport,
    fired: bool,
) -> bool {
    &&& fired == drift_crossed(s0, data.config.campaign_skeleton)
    &&& !fired ==> s1 == s0 && r1 == r0
    &&& fired ==> beat_fired(
        recharter(
            s0,
            ActiveContract {
                drift_beats_fired: bump(charter_of(s0).drift_beats_fired),
                ..charter_of(s0)
            },
        ),
        data,
        data.config.campaign_skeleton.drift_beat_family@,
        r0,
        s1,
        r1,
    )
}

/// The first month the people's cultural drift reaches the next rung of the
/// drift ladder, the rung is counted and a beat forced from the drift family.
pub fn fire_drift_beat(sim: &mut SimState, data: &GameData, report: &mut TickReport) -> (fired: bool)
    requires
        event_ready(*old(sim)),
        beats_ok(*data),
    ensures
        drift_beat_step(*old(sim), *data, *old(report), *final(sim), *final(report), fired),
        event_ready(*final(sim)),
        keeps_watch(*old(sim), *old(report), *final(sim), *final(report)),
{
    let k = &data.config.campaign_skeleton;
    let crossed = match &sim.contract {
        Some(c) => (c.drift_beats_fired as usize) < k.drift_beats.len() && sim.population.cultural_drift
            >= k.drift_beats[c.drift_beats_fired as usize],
        None => false,
    };
    if !crossed {
        return false;
    }
    let mut c = sim.contract.take().unwrap();
    c.drift_beats_fired = c.drift_beats_fired.saturating_add(1);
    sim.contract = Some(c);
    force_family_beat(sim, data, k.drift_beat_family.as_str(), report);
    true
}

/// Whether adaptation has reached the ladder's next rung.
pub open spec fn adaptation_crossed(s: SimState, k: CampaignSkeletonConfig) -> bool {
    s.contract matches Some(c) && (c.adaptation_beats_fired as int) < k.adaptation_beats.len()
        && s.population.adaptation >= k.adaptation_beats@[c.adaptation_beats_fired as int]
}

/// What [`fire_adaptation_beat`] does: whether it fires, and what the ship and the
/// report become.
pub open spec fn adaptation_beat_step(
    s0: SimState,
    data: GameData,
    r0: TickReport,
    s1: SimState,
    r1: TickReport,
    fired: bool,
) -> bool {
    &&& fired == adaptation_crossed(s0, data.config.campaign_skeleton)
    &&& !fired ==> s1 == s0 && r1 == r0
    &&& fired ==> beat_fired(
        recharter(
            s0,
            ActiveContract {
                adaptation_beats_fired: bump(charter_of(s0).adaptation_beats_fired),
                ..charter_of(s0)
            },
        ),
        data,
        data.config.campaign_skeleton.adaptation_beat_family@,
        r0,
        s1,
        r1,
    )
}

/// The physiological twin of the drift beat: adaptation reaching its next
/// rung is counted and forces a beat from the adaptation family.
pub fn fire_adaptation_beat(sim: &mut SimState, data: &GameData, report: &mut TickReport) -> (fired: bool)
    requires
        event_ready(*old(sim)),
        beats_ok(*data),
    ensures
        adaptation_beat_step(*old(sim), *data, *old(report), *final(sim), *final(report), fired),
        event_ready(*final(sim)),
        keeps_watch(*old(sim), *old(report), *final(sim), *final(report)),
{
    let k = &data.config.campaign_skeleton;
    let crossed = match &sim.contract {
        Some(c) => (c.adaptation_beats_fired as usize) < k.adaptation_beats.len() && sim.population.adaptation
            >= k.adaptation_beats[c.adaptation_beats_fired as usize],
        None => false,
    };
    if !crossed {
        return false;
    }
    let mut c = sim.contract.take().unwrap();
    c.adaptation_beats_fired = c.adaptation_beats_fired.saturating_add(1);
    sim.contract = Some(c);
    force_family_beat(sim, data, k.adaptation_beat_family.as_str(), report);
    true
}

/// Whether unity has fallen to the crisis ladder's next rung.
pub open spec fn crisis_crossed(s: SimState, k: CampaignSkeletonConfig) -> bool {
    s.contract matches Some(c) && (c.crisis_beats_fired as int) < k.crisis_beats.len()
        && s.population.unity <= k.crisis_beats@[c.crisis_beats_fired as int]
}

/// What [`fire_crisis_beat`] does: whether it fires, and what the ship and the
/// report become.
pub open spec fn crisis_beat_step(
    s0: SimState,
    data: GameData,
    r0: TickReport,
    s1: SimState,
    r1: TickReport,
    fired: bool,
) -> bool {
    &&& fired == crisis_crossed(s0, data.config.campaign_skeleton)
    &&& !fired ==> s1 == s0 && r1 == r0
    &&& fired ==> beat_fired(
        recharter(
            s0,
            ActiveContract {
                crisis_beats_fired: bump(charter_of(s0).crisis_beats_fired),
                ..charter_of(s0)
            },
        ),
        data,
        data.config.campaign_skeleton.crisis_beat_family@,
        r0,
        s1,
        r1,
    )
}

/// A fracturing ship's reckoning: unity falling to the next rung of the
/// crisis ladder is counted and forces a beat from the crisis family.
pub fn fire_crisis_beat(sim: &mut SimState, data: &GameData, report: &mut TickReport) -> (fired: bool)
    requires
        event_ready(*old(sim)),
        beats_ok(*data),
    ensures
        crisis_beat_step(*old(sim), *data, *old(report), *final(sim), *final(report), fired),
        event_ready(*final(sim)),
        keeps_watch(*old(sim), *old(report), *final(sim), *final(report)),
{
    let k = &data.config.campaign_skeleton;
    let crossed = match &sim.contract {
        Some(c) => (c.crisis_beats_fired as usize) < k.crisis_beats.len() && sim.population.unity
            <= k.crisis_beats[c.crisis_beats_fired as usize],
        None => false,
    };
    if !crossed {
        return false;
    }
    let mut c = sim.contract.take().unwrap();
    c.crisis_beats_fired = c.crisis_beats_fired.saturating_add(1);
    sim.contract = Some(c);
    force_family_beat(sim, data, k.crisis_beat_family.as_str(), report);
    true
}

/// Whether loyalty has fallen to the ladder's next rung.
pub open spec fn loyalty_crossed(s: SimState, k: CampaignSkeletonConfig) -> bool {
    s.contract matches Some(c) && (c.loyalty_beats_fired as int) < k.loyalty_beats.len()
        && s.population.legacy_loyalty <= k.loyalty_beats@[c.loyalty_beats_fired as int]
}

/// What [`fire_loyalty_beat`] does: whether it fires, and what the ship and the
/// report become.
pub open spec fn loyalty_beat_step(
    s0: SimState,
    data: GameData,
    r0: TickReport,
    s1: SimState,
    r1: TickReport,
    fired: bool,
) -> bool {
    &&& fired == loyalty_crossed(s0, data.config.campaign_skeleton)
    &&& !fired ==> s1 == s0 && r1 == r0
    &&& fired ==> beat_fired(
        recharter(
            s0,
            ActiveContract {
                loyalty_beats_fired: bump(charter_of(s0).loyalty_beats_fired),
                ..charter_of(s0)
            },
        ),
        data,
        data.config.campaign_skeleton.loyalty_beat_family@,
        r0,
        s1,
        r1,
    )
}

/// The founders' covenant lapsing: loyalty falling to the next rung is
/// counted and forces a beat from the loyalty family.
pub fn fire_loyalty_beat(sim: &mut SimState, data: &GameData, report: &mut TickReport) -> (fired: bool)
    requires
        event_ready(*old(sim)),
        beats_ok(*data),
    ensures
        loyalty_beat_step(*old(sim), *data, *old(report), *final(sim), *final(report), fired),
        event_ready(*final(sim)),
        keeps_watch(*old(sim), *old(report), *final(sim), *final(report)),
{
    let k = &data.config.campaign_skeleton;
    let crossed = match &sim.contract {
        Some(c) => (c.loyalty_beats_fired as usize) < k.loyalty_beats.len() && sim.population.legacy_loyalty
            <= k.loyalty_beats[c.loyalty_beats_fired as usize],
        None => false,
    };
    if !crossed {
        return false;
    }
    let mut c = sim.contract.take().unwrap();
    c.loyalty_beats_fired = c.loyalty_beats_fired.saturating_add(1);
    sim.contract = Some(c);
    force_family_beat(sim, data, k.loyalty_beat_family.as_str(), report);
    true
}

/// Whether stability has fallen to the ladder's next rung.
pub open spec fn stability_crossed(s: SimState, k: CampaignSkeletonConfig) -> bool {
    s.contract matches Some(c) && (c.stability_beats_fired as int) < k.stability_beats.len()
        && s.population.stability <= k.stability_beats@[c.stability_beats_fired as int]
}

/// What [`fire_stability_beat`] does: whether it fires, and what the ship and the
/// report become.
pub open spec fn stability_beat_step(
    s0: SimState,
    data: GameData,
    r0: TickReport,
    s1: SimState,
    r1: TickReport,
    fired: bool,
) -> bool {
    &&& fired == stability_crossed(s0, data.config.campaign_skeleton)
    &&& !fired ==> s1 == s0 && r1 == r0
    &&& fired ==> beat_fired(
        recharter(
            s0,
            ActiveContract {
                stability_beats_fired: bump(charter_of(s0).stability_beats_fired),
                ..charter_of(s0)
            },
        ),
        data,
        data.config.campaign_skeleton.stability_beat_family@,
        r0,
        s1,
        r1,
    )
}

/// The ship's institutions ceasing to function: stability falling to the
/// next rung is counted and forces a beat from the stability family.
pub fn fire_stability_beat(sim: &mut SimState, data: &GameData, report: &mut TickReport) -> (fired: bool)
    requires
        event_ready(*old(sim)),
        beats_ok(*data),
    ensures
        stability_beat_step(*old(sim), *data, *old(report), *final(sim), *final(report), fired),
        event_ready(*final(sim)),
        keeps_watch(*old(sim), *old(report), *final(sim), *final(report)),
{
    let k = &data.config.campaign_skeleton;
    let crossed = match &sim.contract {
        Some(c) => (c.stability_beats_fired as usize) < k.stability_beats.len() && sim.population.stability
            <= k.stability_beats[c.stability_beats_fired as usize],
        None => false,
    };
    if !crossed {
        return false;
    }
    let mut c = sim.contract.take().unwrap();
    c.stability_beats_fired = c.stability_beats_fired.saturating_add(1);
    sim.contract = Some(c);
    force_family_beat(sim, data, k.stability_beat_family.as_str(), report);
    true
}

/// Whether morale has climbed to the flourish ladder's next rung.
pub open spec fn flourish_crossed(s: SimState, k: CampaignSkeletonConfig) -> bool {
    s.contract matches Some(c) && (c.flourish_beats_fired as int) < k.flourish_beats.len()
        && s.population.morale >= k.flourish_beats@[c.flourish_beats_fired as int]
}

/// What [`fire_flourish_beat`] does: whether it fires, and what the ship and the
/// report become.
pub open spec fn flourish_beat_step(
    s0: SimState,
    data: GameData,
    r0: TickReport,
    s1: SimState,
    r1: TickReport,
    fired: bool,
) -> bool {
    &&& fired == flourish_crossed(s0, data.config.campaign_skeleton)
    &&& !fired ==> s1 == s0 && r1 == r0
    &&& fired ==> beat_fired(
        recharter(
            s0,
            ActiveContract {
                flourish_beats_fired: bump(charter_of(s0).flourish_beats_fired),
                ..charter_of(s0)
            },
        ),
        data,
        data.config.campaign_skeleton.flourish_beat_family@,
        r0,
        s1,
        r1,
    )
}

/// A thriving ship's golden age: morale climbing to the next rung is
/// counted and forces a beat from the flourish family.
pub fn fire_flourish_beat(sim: &mut SimState, data: &GameData, report: &mut TickReport) -> (fired: bool)
    requires
        event_ready(*old(sim)),
        beats_ok(*data),
    ensures
        flourish_beat_step(*old(sim), *data, *old(report), *final(sim), *final(report), fired),
        event_ready(*final(sim)),
        keeps_watch(*old(sim), *old(report), *final(sim), *final(report)),
{
    let k = &data.config.campaign_skeleton;
    let crossed = match &sim.contract {
        Some(c) => (c.flourish_beats_fired as usize) < k.flourish_beats.len() && sim.population.morale
            >= k.flourish_beats[c.flourish_beats_fired as usize],
        None => false,
    };
    if !crossed {
        return false;
    }
    let mut c = sim.contract.take().unwrap();
    c.flourish_beats_fired = c.flourish_beats_fired.saturating_add(1);
    sim.contract = Some(c);
    force_family_beat(sim, data, k.flourish_beat_family.as_str(), report);
    true
}

/// Whether the objective has reached the ladder's next rung.
pub open spec fn objective_crossed(s: SimState, k: CampaignSkeletonConfig) -> bool {
    s.contract matches Some(c) && (c.objective_beats_fired as int) < k.objective_beats.len()
        && c.objective_fraction_spec() >= k.objective_beats@[c.objective_beats_fired as int]
}

/// What [`fire_objective_beat`] does: whether it fires, and what the ship and the
/// report become.
pub open spec fn objective_beat_step(
    s0: SimState,
    data: GameData,
    r0: TickReport,
    s1: SimState,
    r1: TickReport,
    fired: bool,
) -> bool {
    &&& fired == objective_crossed(s0, data.config.campaign_skeleton)
    &&& !fired ==> s1 == s0 && r1 == r0
    &&& fired ==> beat_fired(
        recharter(
            s0,
            ActiveContract {
                objective_beats_fired: bump(charter_of(s0).objective_beats_fired),
                ..charter_of(s0)
            },
        ),
        data,
        data.config.campaign_skeleton.objective_beat_family@,
        r0,
        s1,
        r1,
    )
}

/// The crew marking a purpose most will not live to see done: the
/// objective reaching its next rung is counted and forces a beat.
pub fn fire_objective_beat(sim: &mut SimState, data: &GameData, report: &mut TickReport) -> (fired: bool)
    requires
        event_ready(*old(sim)),
        beats_ok(*data),
    ensures
        objective_beat_step(*old(sim), *data, *old(report), *final(sim), *final(report), fired),
        event_ready(*final(sim)),
        keeps_watch(*old(sim), *old(report), *final(sim), *final(report)),
{
    let k = &data.config.campaign_skeleton;
    let crossed = match &sim.contract {
        Some(c) => (c.objective_beats_fired as usize) < k.objective_beats.len() && c.objective_fraction()
            >= k.objective_beats[c.objective_beats_fired as usize],
        None => false,
    };
    if !crossed {
        return false;
    }
    let mut c = sim.contract.take().unwrap();
    c.objective_beats_fired = c.objective_beats_fired.saturating_add(1);
    sim.contract = Some(c);
    force_family_beat(sim, data, k.objective_beat_family.as_str(), report);
    true
}

// ---------------------------------------------------------------- the people's turns

/// Whether the ship, once fractured, has pulled back together.
pub open spec fn recovered(s: SimState, k: CampaignSkeletonConfig) -> bool {
    &&& k.recovery_beat_family@.len() > 0
    &&& s.contract matches Some(c) && c.crisis_beats_fired > 0 && s.population.unity >= k.recovery_beat_threshold
}

/// What [`fire_recovery_beat`] does: whether it fires, and what the ship and the
/// report become.
pub open spec fn recovery_beat_step(
    s0: SimState,
    data: GameData,
    r0: TickReport,
    s1: SimState,
    r1: TickReport,
    fired: bool,
) -> bool {
    &&& fired == recovered(s0, data.config.campaign_skeleton)
    &&& !fired ==> s1 == s0 && r1 == r0
    &&& fired ==> beat_fired(
        recharter(s0, ActiveContract { crisis_beats_fired: 0, ..charter_of(s0) }),
        data,
        data.config.campaign_skeleton.recovery_beat_family@,
        r0,
        s1,
        r1,
    )
}

/// The crisis beat's hopeful mirror: a ship whose unity climbs back to the
/// recovery line after a crisis beat re-arms the crisis ladder and forces a
/// beat from the recovery family.
pub fn fire_recovery_beat(sim: &mut SimState, data: &GameData, report: &mut TickReport) -> (fired: bool)
    requires
        event_ready(*old(sim)),
        beats_ok(*data),
    ensures
        recovery_beat_step(*old(sim), *data, *old(report), *final(sim), *final(report), fired),
        event_ready(*final(sim)),
        keeps_watch(*old(sim), *old(report), *final(sim), *final(report)),
{
    let k = &data.config.campaign_skeleton;
    if crate::util::is_blank(&k.recovery_beat_family) {
        return false;
    }
    let due = match &sim.contract {
        Some(c) => c.crisis_beats_fired > 0 && sim.population.unity >= k.recovery_beat_threshold,
        None => false,
    };
    if !due {
        return false;
    }
    let mut c = sim.contract.take().unwrap();
    c.crisis_beats_fired = 0;
    sim.contract = Some(c);
    force_family_beat(sim, data, k.recovery_beat_family.as_str(), report);
    true
}

/// The head count at or below which the next depopulation rung falls: its
/// fraction of the founding head count, rounded up.
pub open spec fn depopulation_line(k: CampaignSkeletonConfig, cfg: GameConfig, n: int) -> int {
    cdiv(k.depopulation_beats@[n] * cfg.starting_population, ONE as int)
}

/// Whether the crew has thinned to the next depopulation rung.
pub open spec fn depopulated(s: SimState, cfg: GameConfig) -> bool {
    let k = cfg.campaign_skeleton;
    let n = s.depopulation_beats_fired as int;
    &&& n < k.depopulation_beats.len()
    &&& s.contract is Some
    &&& s.population.count <= depopulation_line(k, cfg, n)
}

/// What [`fire_depopulation_beat`] does: whether it fires, and what the ship and the
/// report become.
pub open spec fn depopulation_beat_step(
    s0: SimState,
    data: GameData,
    r0: TickReport,
    s1: SimState,
    r1: TickReport,
    fired: bool,
) -> bool {
    &&& fired == depopulated(s0, data.config)
    &&& !fired ==> s1 == s0 && r1 == r0
    &&& fired ==> beat_fired(
        SimState { depopulation_beats_fired: bump(s0.depopulation_beats_fired), ..s0 },
        data,
        data.config.campaign_skeleton.depopulation_beat_family@,
        r0,
        s1,
        r1,
    )
}

/// The sealed ship's slow tragedy, marked at its stages: the head count
/// falling to the next fraction of the founding crew is counted (for the
/// whole campaign) and forces a beat during a voyage.
pub fn fire_depopulation_beat(sim: &mut SimState, data: &GameData, report: &mut TickReport) -> (fired: bool)
    requires
        event_ready(*old(sim)),
        beats_ok(*data),
    ensures
        depopulation_beat_step(*old(sim), *data, *old(report), *final(sim), *final(report), fired),
        event_ready(*final(sim)),
        keeps_watch(*old(sim), *old(report), *final(sim), *final(report)),
{
    let k = &data.config.campaign_skeleton;
    let n = sim.depopulation_beats_fired as usize;
    if n >= k.depopulation_beats.len() || sim.contract.is_none() {
        return false;
    }
    let f = k.depopulation_beats[n];
    proof {
        assert(0 <= f <= ONE);
        let p = data.config.starting_population as int;
        assert(0 <= (f as int) * p <= ONE * (u32::MAX as int)) by (nonlinear_arith)
            requires
                0 <= f <= ONE,
                0 <= p <= u32::MAX,
        ;
    }
    let x: i64 = f * (data.config.starting_population as i64);
    let line: i64 = if x <= 0 {
        0
    } else {
        (x + ONE - 1) / ONE
    };
    if (sim.population.count as i64) > line {
        return false;
    }
    sim.depopulation_beats_fired = sim.depopulation_beats_fired.saturating_add(1);
    force_family_beat(sim, data, k.depopulation_beat_family.as_str(), report);
    true
}

/// The aboard people holding a clear majority, by id (none for none).
pub open spec fn majority_id(s: SimState) -> Option<Seq<char>> {
    match clear_majority(s.factions@) {
        Some(b) => Some(s.factions@[b].faction_id@),
        None => None,
    }
}

/// Whether the ship has a new clear majority to reckon with: one holds the
/// ship, one was marked before, and they differ.
pub open spec fn power_changed(s: SimState, k: CampaignSkeletonConfig) -> bool {
    &&& k.power_transition_beat_family@.len() > 0
    &&& s.contract is Some
    &&& majority_id(s) matches Some(id) && s.last_dominant_faction@.len() > 0 && id != s.last_dominant_faction@
}

/// What [`fire_power_transition_beat`] does: whether it fires, and what the ship and the
/// report become.
pub open spec fn power_transition_beat_step(
    s0: SimState,
    data: GameData,
    r0: TickReport,
    s1: SimState,
    r1: TickReport,
    fired: bool,
) -> bool {
    &&& fired == power_changed(s0, data.config.campaign_skeleton)
    &&& !fired ==> r1 == r0
    &&& !fired ==> (if data.config.campaign_skeleton.power_transition_beat_family@.len() > 0
        && s0.contract is Some && majority_id(s0) is Some
        && s0.last_dominant_faction@.len() == 0 {
        s1.last_dominant_faction@ == majority_id(s0).unwrap() && s1 == (SimState {
            last_dominant_faction: s1.last_dominant_faction,
            ..s0
        })
    } else {
        s1 == s0
    })
    &&& fired ==> exists|m: SimState|
        m.last_dominant_faction@ == majority_id(s0).unwrap() && m == (SimState {
            last_dominant_faction: m.last_dominant_faction,
            ..s0
        }) && #[trigger] beat_fired(
            m,
            data,
            data.config.campaign_skeleton.power_transition_beat_family@,
            r0,
            s1,
            r1,
        )
}

/// New leadership: when a people other than the one last marked holds a
/// clear majority, it is marked and a beat forced. The first clear majority
/// of a voyage is only marked.
pub fn fire_power_transition_beat(sim: &mut SimState, data: &GameData, report: &mut TickReport) -> (fired: bool)
    requires
        event_ready(*old(sim)),
        beats_ok(*data),
    ensures
        power_transition_beat_step(*old(sim), *data, *old(report), *final(sim), *final(report), fired),
        event_ready(*final(sim)),
        keeps_watch(*old(sim), *old(report), *final(sim), *final(report)),
{
    let fam = &data.config.campaign_skeleton.power_transition_beat_family;
    if crate::util::is_blank(fam) || sim.contract.is_none() {
        return false;
    }
    let current = match crate::voyage::clear_majority_faction(sim) {
        Some(id) => id,
        None => return false,
    };
    if crate::util::is_blank(&sim.last_dominant_faction) {
        sim.last_dominant_faction = current;
        return false;
    }
    if crate::util::same(&current, &sim.last_dominant_faction) {
        return false;
    }
    sim.last_dominant_faction = current;
    let ghost m = *sim;
    force_family_beat(sim, data, fam.as_str(), report);
    proof {
        assert(beat_fired(m, *data, fam@, *old(report), *sim, *report));
    }
    true
}

// ---------------------------------------------------------------- the ship's body

/// Which side of the hull's red line the hull stands: at or below (-1) or
/// above (0).
pub open spec fn hull_band(s: SimState, k: CampaignSkeletonConfig) -> i32 {
    if s.ship.hull_integrity <= k.hull_beat_threshold {
        -1i32
    } else {
        0i32
    }
}

/// Whether the hull beat looks at all: a family, a red line, a voyage.
pub open spec fn hull_watched(s: SimState, k: CampaignSkeletonConfig) -> bool {
    k.hull_beat_family@.len() > 0 && k.hull_beat_threshold > 0 && s.contract is Some
}

/// What [`fire_hull_beat`] does: whether it fires, and what the ship and the
/// report become.
pub open spec fn hull_beat_step(
    s0: SimState,
    data: GameData,
    r0: TickReport,
    s1: SimState,
    r1: TickReport,
    fired: bool,
) -> bool {
    &&& ({
        let k = data.config.campaign_skeleton;
        let b = hull_band(s0, k);
        let moved = hull_watched(s0, k) && b != s0.hull_beat_band;
        &&& fired == (moved && b == -1)
        &&& !fired ==> r1 == r0 && s1 == (if moved {
            SimState { hull_beat_band: b, ..s0 }
        } else {
            s0
        })
        &&& fired ==> beat_fired(
            SimState { hull_beat_band: -1i32, ..s0 },
            data,
            k.hull_beat_family@,
            r0,
            s1,
            r1,
        )
    })
}

/// The vessel itself failing: the month the hull first falls to its red
/// line a beat is forced; a hull back above the line re-arms it silently.
pub fn fire_hull_beat(sim: &mut SimState, data: &GameData, report: &mut TickReport) -> (fired: bool)
    requires
        event_ready(*old(sim)),
        beats_ok(*data),
    ensures
        hull_beat_step(*old(sim), *data, *old(report), *final(sim), *final(report), fired),
        event_ready(*final(sim)),
        keeps_watch(*old(sim), *old(report), *final(sim), *final(report)),
{
    let k = &data.config.campaign_skeleton;
    if crate::util::is_blank(&k.hull_beat_family) || k.hull_beat_threshold <= 0 || sim.contract.is_none() {
        return false;
    }
    let band: i32 = if sim.ship.hull_integrity <= k.hull_beat_threshold {
        -1
    } else {
        0
    };
    if band == sim.hull_beat_band {
        return false;
    }
    sim.hull_beat_band = band;
    if band == 0 {
        return false;
    }
    force_family_beat(sim, data, k.hull_beat_family.as_str(), report);
    true
}

/// The first configured module (from `j` on) that has collapsed to its red
/// line and not yet had its beat this campaign.
pub open spec fn collapse_from(s: SimState, bs: Seq<SubsystemBeat>, j: int) -> Option<int>
    decreases bs.len() - j,
{
    if j < 0 || j >= bs.len() {
        None
    } else if !listed(s.subsystem_beats_fired@, bs[j].subsystem@) && (state_of(s, bs[j].subsystem@) matches Some(
        x,
    ) && x.condition <= bs[j].threshold) {
        Some(j)
    } else {
        collapse_from(s, bs, j + 1)
    }
}

proof fn lemma_collapse_from(s: SimState, bs: Seq<SubsystemBeat>, j: int)
    requires
        0 <= j,
    ensures
        collapse_from(s, bs, j) matches Some(i) ==> j <= i < bs.len(),
    decreases bs.len() - j,
{
    if j < bs.len() {
        lemma_collapse_from(s, bs, j + 1);
    }
}

/// The module whose collapse is due a beat, during a voyage.
pub open spec fn collapse_due(s: SimState, k: CampaignSkeletonConfig) -> Option<int> {
    if k.subsystem_beats.len() == 0 || s.contract is None {
        None
    } else {
        collapse_from(s, k.subsystem_beats@, 0)
    }
}

/// What [`fire_subsystem_beat`] does: whether it fires, and what the ship and the
/// report become.
pub open spec fn subsystem_beat_step(
    s0: SimState,
    data: GameData,
    r0: TickReport,
    s1: SimState,
    r1: TickReport,
    fired: bool,
) -> bool {
    &&& fired == collapse_due(s0, data.config.campaign_skeleton) is Some
    &&& !fired ==> s1 == s0 && r1 == r0
    &&& fired ==> {
        let b = data.config.campaign_skeleton.subsystem_beats@[collapse_due(
            s0,
            data.config.campaign_skeleton,
        ).unwrap()];
        exists|m: SimState|
            m.subsystem_beats_fired.len() == s0.subsystem_beats_fired.len() + 1
                && m.subsystem_beats_fired@.drop_last() == s0.subsystem_beats_fired@
                && m.subsystem_beats_fired@.last()@ == b.subsystem@ && m == (SimState {
                subsystem_beats_fired: m.subsystem_beats_fired,
                ..s0
            }) && #[trigger] beat_fired(m, data, b.family@, r0, s1, r1)
    }
}

/// A keystone that has truly failed: the first configured module at or
/// below its red line whose beat has not fired this campaign is marked and
/// a beat forced from its family.
pub fn fire_subsystem_beat(sim: &mut SimState, data: &GameData, report: &mut TickReport) -> (fired: bool)
    requires
        event_ready(*old(sim)),
        beats_ok(*data),
    ensures
        subsystem_beat_step(*old(sim), *data, *old(report), *final(sim), *final(report), fired),
        event_ready(*final(sim)),
        keeps_watch(*old(sim), *old(report), *final(sim), *final(report)),
{
    let k = &data.config.campaign_skeleton;
    if k.subsystem_beats.len() == 0 || sim.contract.is_none() {
        return false;
    }
    let bs = &k.subsystem_beats;
    let mut j: usize = 0;
    while j < bs.len()
        invariant
            j <= bs.len(),
            *bs == data.config.campaign_skeleton.subsystem_beats,
            collapse_from(*sim, bs@, 0) == collapse_from(*sim, bs@, j as int),
            *sim == *old(sim),
            *report == *old(report),
            event_ready(*sim),
            beats_ok(*data),
            collapse_due(*sim, data.config.campaign_skeleton) == collapse_from(*sim, bs@, 0),
        decreases bs.len() - j,
    {
        let b = &bs[j];
        let hit = !crate::util::contains(&sim.subsystem_beats_fired, &b.subsystem) && match sim.subsystem_index(
            b.subsystem.as_str(),
        ) {
            Some(i) => sim.subsystems[i].condition <= b.threshold,
            None => false,
        };
        if hit {
            let id = b.subsystem.clone();
            let ghost s0 = *sim;
            sim.subsystem_beats_fired.push(id);
            let ghost m = *sim;
            force_family_beat(sim, data, b.family.as_str(), report);
            proof {
                assert(collapse_from(s0, bs@, j as int) == Some(j as int));
                assert(collapse_due(s0, data.config.campaign_skeleton) == Some(j as int));
                assert(beat_fired(m, *data, b.family@, *old(report), *sim, *report));
                assert(m.subsystem_beats_fired@ == s0.subsystem_beats_fired@.push(id));
                assert(m.subsystem_beats_fired@.drop_last() =~= s0.subsystem_beats_fired@);
                assert(*b == data.config.campaign_skeleton.subsystem_beats@[j as int]);
                assert(m == (SimState { subsystem_beats_fired: m.subsystem_beats_fired, ..*old(sim) }));
                assert(m.subsystem_beats_fired.len() == old(sim).subsystem_beats_fired.len() + 1);
                assert(m.subsystem_beats_fired@.last()@ == b.subsystem@);
                let b2 = data.config.campaign_skeleton.subsystem_beats@[collapse_due(
                    *old(sim),
                    data.config.campaign_skeleton,
                ).unwrap()];
                assert(b2 == *b);
                assert(beat_fired(m, *data, b2.family@, *old(report), *sim, *report));
            }
            return true;
        }
        j = j + 1;
    }
    false
}

// ---------------------------------------------------------------- the name the ship has earned

/// The band the ship's name stands in: famed (1), notorious (-1) or
/// neither (0).
pub open spec fn name_band(s: SimState, k: CampaignSkeletonConfig) -> i32 {
    let v = rep_value(s.reputation@, k.reputation_beat_trait@);
    if v >= k.reputation_beat_high {
        1i32
    } else if v <= k.reputation_beat_low {
        -1i32
    } else {
        0i32
    }
}

/// Whether the reputation beat looks at all: a trait, a family, a voyage.
pub open spec fn name_watched(s: SimState, k: CampaignSkeletonConfig) -> bool {
    k.reputation_beat_trait@.len() > 0 && k.reputation_beat_family@.len() > 0 && s.contract is Some
}

/// What [`fire_reputation_beat`] does: whether it fires, and what the ship and the
/// report become.
pub open spec fn reputation_beat_step(
    s0: SimState,
    data: GameData,
    r0: TickReport,
    s1: SimState,
    r1: TickReport,
    fired: bool,
) -> bool {
    &&& ({
        let k = data.config.campaign_skeleton;
        let b = name_band(s0, k);
        let moved = name_watched(s0, k) && b != s0.reputation_beat_band;
        &&& fired == (moved && b != 0)
        &&& !fired ==> r1 == r0 && s1 == (if moved {
            SimState { reputation_beat_band: 0, ..s0 }
        } else {
            s0
        })
        &&& fired ==> beat_fired(
            SimState { reputation_beat_band: b, ..s0 },
            data,
            k.reputation_beat_family@,
            r0,
            s1,
            r1,
        )
    })
}

/// The ship reckoning with the name it has earned: crossing into a strong
/// band forces a beat; a return to the middle re-arms silently.
pub fn fire_reputation_beat(sim: &mut SimState, data: &GameData, report: &mut TickReport) -> (fired: bool)
    requires
        event_ready(*old(sim)),
        beats_ok(*data),
    ensures
        reputation_beat_step(*old(sim), *data, *old(report), *final(sim), *final(report), fired),
        event_ready(*final(sim)),
        keeps_watch(*old(sim), *old(report), *final(sim), *final(report)),
{
    let k = &data.config.campaign_skeleton;
    if crate::util::is_blank(&k.reputation_beat_trait) || crate::util::is_blank(&k.reputation_beat_family) || sim.contract.is_none() {
        return false;
    }
    let value = sim.reputation(k.reputation_beat_trait.as_str());
    let band: i32 = if value >= k.reputation_beat_high {
        1
    } else if value <= k.reputation_beat_low {
        -1
    } else {
        0
    };
    if band == sim.reputation_beat_band {
        return false;
    }
    if band == 0 {
        sim.reputation_beat_band = 0;
        return false;
    }
    sim.reputation_beat_band = band;
    force_family_beat(sim, data, k.reputation_beat_family.as_str(), report);
    true
}

// ---------------------------------------------------------------- the voyage's eras

/// Whether the charter has just turned for home.
pub open spec fn turning_home(s: SimState, k: CampaignSkeletonConfig) -> bool {
    &&& k.homecoming_beat_family@.len() > 0
    &&& s.contract matches Some(c) && !c.homecoming_beat_fired && c.phase == ContractPhase::Return
}

/// What [`fire_homecoming_beat`] does: whether it fires, and what the ship and the
/// report become.
pub open spec fn homecoming_beat_step(
    s0: SimState,
    data: GameData,
    r0: TickReport,
    s1: SimState,
    r1: TickReport,
    fired: bool,
) -> bool {
    &&& fired == turning_home(s0, data.config.campaign_skeleton)
    &&& !fired ==> s1 == s0 && r1 == r0
    &&& fired ==> beat_fired(
        recharter(s0, ActiveContract { homecoming_beat_fired: true, ..charter_of(s0) }),
        data,
        data.config.campaign_skeleton.homecoming_beat_family@,
        r0,
        s1,
        r1,
    )
}

/// The voyage's climactic reckoning: the moment the charter enters its
/// Return leg, once per voyage, a beat is forced.
pub fn fire_homecoming_beat(sim: &mut SimState, data: &GameData, report: &mut TickReport) -> (fired: bool)
    requires
        event_ready(*old(sim)),
        beats_ok(*data),
    ensures
        homecoming_beat_step(*old(sim), *data, *old(report), *final(sim), *final(report), fired),
        event_ready(*final(sim)),
        keeps_watch(*old(sim), *old(report), *final(sim), *final(report)),
{
    let k = &data.config.campaign_skeleton;
    if crate::util::is_blank(&k.homecoming_beat_family) {
        return false;
    }
    let due = match &sim.contract {
        Some(c) => !c.homecoming_beat_fired && c.phase == ContractPhase::Return,
        None => false,
    };
    if !due {
        return false;
    }
    let mut c = sim.contract.take().unwrap();
    c.homecoming_beat_fired = true;
    sim.contract = Some(c);
    force_family_beat(sim, data, k.homecoming_beat_family.as_str(), report);
    true
}

/// Whether the voyage has passed its midpoint with home still ahead.
pub open spec fn past_midpoint(s: SimState, k: CampaignSkeletonConfig) -> bool {
    &&& k.midvoyage_beat_family@.len() > 0
    &&& s.contract matches Some(c) && !c.midvoyage_beat_fired && c.phase != ContractPhase::Return
        && c.months_elapsed * 2 >= months_total(c.phases@)
}

/// What [`fire_midvoyage_beat`] does: whether it fires, and what the ship and the
/// report become.
pub open spec fn midvoyage_beat_step(
    s0: SimState,
    data: GameData,
    r0: TickReport,
    s1: SimState,
    r1: TickReport,
    fired: bool,
) -> bool {
    &&& fired == past_midpoint(s0, data.config.campaign_skeleton)
    &&& !fired ==> s1 == s0 && r1 == r0
    &&& fired ==> beat_fired(
        recharter(s0, ActiveContract { midvoyage_beat_fired: true, ..charter_of(s0) }),
        data,
        data.config.campaign_skeleton.midvoyage_beat_family@,
        r0,
        s1,
        r1,
    )
}

/// The deep middle: the month the voyage passes its temporal midpoint
/// before the Return leg, once per voyage, a beat is forced.
pub fn fire_midvoyage_beat(sim: &mut SimState, data: &GameData, report: &mut TickReport) -> (fired: bool)
    requires
        event_ready(*old(sim)),
        beats_ok(*data),
    ensures
        midvoyage_beat_step(*old(sim), *data, *old(report), *final(sim), *final(report), fired),
        event_ready(*final(sim)),
        keeps_watch(*old(sim), *old(report), *final(sim), *final(report)),
{
    let k = &data.config.campaign_skeleton;
    if crate::util::is_blank(&k.midvoyage_beat_family) {
        return false;
    }
    let due = match &sim.contract {
        Some(c) => !c.midvoyage_beat_fired && c.phase != ContractPhase::Return && (c.months_elapsed as u64) * 2
            >= (c.total_months() as u64),
        None => false,
    };
    if !due {
        return false;
    }
    let mut c = sim.contract.take().unwrap();
    c.midvoyage_beat_fired = true;
    sim.contract = Some(c);
    force_family_beat(sim, data, k.midvoyage_beat_family.as_str(), report);
    true
}

/// Whether the campaign has reached its founding-era year.
pub open spec fn founding_due(s: SimState, k: CampaignSkeletonConfig) -> bool {
    &&& k.founding_beat_family@.len() > 0
    &&& k.founding_beat_year != 0
    &&& !s.founding_beat_fired
    &&& s.contract is Some
    &&& s.year >= k.founding_beat_year
}

/// What [`fire_founding_beat`] does: whether it fires, and what the ship and the
/// report become.
pub open spec fn founding_beat_step(
    s0: SimState,
    data: GameData,
    r0: TickReport,
    s1: SimState,
    r1: TickReport,
    fired: bool,
) -> bool {
    &&& fired == founding_due(s0, data.config.campaign_skeleton)
    &&& !fired ==> s1 == s0 && r1 == r0
    &&& fired ==> beat_fired(
        SimState { founding_beat_fired: true, ..s0 },
        data,
        data.config.campaign_skeleton.founding_beat_family@,
        r0,
        s1,
        r1,
    )
}

/// The ship handed wholly to those born to the void: the year the campaign
/// passes its founding-era year, once ever, a beat is forced.
pub fn fire_founding_beat(sim: &mut SimState, data: &GameData, report: &mut TickReport) -> (fired: bool)
    requires
        event_ready(*old(sim)),
        beats_ok(*data),
    ensures
        founding_beat_step(*old(sim), *data, *old(report), *final(sim), *final(report), fired),
        event_ready(*final(sim)),
        keeps_watch(*old(sim), *old(report), *final(sim), *final(report)),
{
    let k = &data.config.campaign_skeleton;
    if crate::util::is_blank(&k.founding_beat_family) || k.founding_beat_year == 0 || sim.founding_beat_fired
        || sim.contract.is_none() || sim.year < k.founding_beat_year {
        return false;
    }
    sim.founding_beat_fired = true;
    force_family_beat(sim, data, k.founding_beat_family.as_str(), report);
    true
}

/// Whether the next anniversary of the voyage has come.
pub open spec fn anniversary_due(s: SimState, k: CampaignSkeletonConfig) -> bool {
    &&& k.anniversary_years != 0
    &&& s.contract matches Some(c) && s.month_clock >= (c.anniversaries_fired + 1) * k.anniversary_years * 12
}

/// What [`fire_anniversary_beat`] does: whether it fires, and what the ship and the
/// report become.
pub open spec fn anniversary_beat_step(
    s0: SimState,
    data: GameData,
    r0: TickReport,
    s1: SimState,
    r1: TickReport,
    fired: bool,
) -> bool {
    &&& fired == anniversary_due(s0, data.config.campaign_skeleton)
    &&& !fired ==> s1 == s0 && r1 == r0
    &&& fired ==> beat_fired(
        recharter(
            s0,
            ActiveContract {
                anniversaries_fired: bump(charter_of(s0).anniversaries_fired),
                ..charter_of(s0)
            },
        ),
        data,
        data.config.campaign_skeleton.anniversary_beat_family@,
        r0,
        s1,
        r1,
    )
}

/// A commemorative heartbeat: every so many years of the voyage a beat is
/// forced from the anniversary family.
pub fn fire_anniversary_beat(sim: &mut SimState, data: &GameData, report: &mut TickReport) -> (fired: bool)
    requires
        event_ready(*old(sim)),
        beats_ok(*data),
    ensures
        anniversary_beat_step(*old(sim), *data, *old(report), *final(sim), *final(report), fired),
        event_ready(*final(sim)),
        keeps_watch(*old(sim), *old(report), *final(sim), *final(report)),
{
    let k = &data.config.campaign_skeleton;
    if k.anniversary_years == 0 {
        return false;
    }
    let due = match &sim.contract {
        Some(c) => {
            let a = (c.anniversaries_fired as u128) + 1;
            let y = k.anniversary_years as u128;
            assert(a * y <= 0x1_0000_0000 * 0x1_0000_0000) by (nonlinear_arith)
                requires
                    a <= 0x1_0000_0000,
                    y <= 0x1_0000_0000,
            ;
            let next: u128 = a * y * 12;
            (sim.month_clock as u128) >= next
        },
        None => false,
    };
    if !due {
        return false;
    }
    let mut c = sim.contract.take().unwrap();
    c.anniversaries_fired = c.anniversaries_fired.saturating_add(1);
    sim.contract = Some(c);
    force_family_beat(sim, data, k.anniversary_beat_family.as_str(), report);
    true
}

/// Whether the voyage has gone long enough without an event.
pub open spec fn dead_air(s: SimState, k: CampaignSkeletonConfig) -> bool {
    let gap: int = if s.month_clock >= s.last_event_month_clock {
        s.month_clock - s.last_event_month_clock
    } else {
        0
    };
    &&& k.dead_air_years != 0
    &&& k.dead_air_pool.len() > 0
    &&& s.contract is Some
    &&& gap >= k.dead_air_years * 12
}

/// The ship after one draw from its tape.
pub open spec fn drawn(s: SimState) -> SimState {
    SimState { rolls: s.rolls.advanced(), ..s }
}

/// What [`fire_dead_air_beat`] does: whether it fires, and what the ship and the
/// report become.
pub open spec fn dead_air_beat_step(
    s0: SimState,
    data: GameData,
    r0: TickReport,
    s1: SimState,
    r1: TickReport,
    fired: bool,
) -> bool {
    &&& fired == dead_air(s0, data.config.campaign_skeleton)
    &&& !fired ==> s1 == s0 && r1 == r0
    &&& fired ==> {
        let k = data.config.campaign_skeleton;
        let pick = s0.rolls.below_value(k.dead_air_pool.len() as nat);
        exists|f: SimState|
            #[trigger] beat_fired(
                drawn(s0),
                data,
                k.dead_air_pool@[pick as int]@,
                r0,
                f,
                r1,
            ) && s1 == (SimState { last_event_month_clock: s0.month_clock, ..f })
    }
}

/// No voyage drifts on empty: once the quiet has run past its limit, one
/// draw picks a family from the pool, a beat is forced from it, and the
/// event clock restarts whether or not the family had anything to give.
#[verifier::rlimit(30)]
pub fn fire_dead_air_beat(sim: &mut SimState, data: &GameData, report: &mut TickReport) -> (fired: bool)
    requires
        event_ready(*old(sim)),
        beats_ok(*data),
    ensures
        dead_air_beat_step(*old(sim), *data, *old(report), *final(sim), *final(report), fired),
        event_ready(*final(sim)),
        keeps_watch(*old(sim), *old(report), *final(sim), *final(report)),
{
    let k = &data.config.campaign_skeleton;
    if k.dead_air_years == 0 || k.dead_air_pool.len() == 0 || sim.contract.is_none() {
        return false;
    }
    let gap: u64 = if sim.month_clock >= sim.last_event_month_clock {
        (sim.month_clock - sim.last_event_month_clock) as u64
    } else {
        0
    };
    if gap < (k.dead_air_years as u64) * 12 {
        return false;
    }
    let pick = sim.rolls.below(k.dead_air_pool.len());
    let ghost m = *sim;
    force_family_beat(sim, data, k.dead_air_pool[pick].as_str(), report);
    let ghost f = *sim;
    sim.last_event_month_clock = sim.month_clock;
    proof {
        assert(beat_fired(m, *data, k.dead_air_pool@[pick as int]@, *old(report), f, *report));
    }
    true
}

// ---------------------------------------------------------------- the line

/// Whether a sitting leader died this month in a voyage that has a family
/// for it.
pub open spec fn leader_lost(s: SimState, r: TickReport, k: CampaignSkeletonConfig) -> bool {
    r.leader_died && k.succession_beat_family@.len() > 0 && s.contract is Some
}

/// What [`fire_succession_beat`] does: whether it fires, and what the ship and the
/// report become.
pub open spec fn succession_beat_step(
    s0: SimState,
    data: GameData,
    r0: TickReport,
    s1: SimState,
    r1: TickReport,
    fired: bool,
) -> bool {
    &&& fired == leader_lost(s0, r0, data.config.campaign_skeleton)
    &&& !fired ==> s1 == s0 && r1 == r0
    &&& fired ==> beat_fired(
        s0,
        data,
        data.config.campaign_skeleton.succession_beat_family@,
        TickReport { leader_died: false, ..r0 },
        s1,
        r1,
    )
}

/// An untried command: the month a sitting leader dies in office a beat is
/// forced from the succession family, once per death.
pub fn fire_succession_beat(sim: &mut SimState, data: &GameData, report: &mut TickReport) -> (fired: bool)
    requires
        event_ready(*old(sim)),
        beats_ok(*data),
    ensures
        succession_beat_step(*old(sim), *data, *old(report), *final(sim), *final(report), fired),
        event_ready(*final(sim)),
        keeps_watch(*old(sim), *old(report), *final(sim), *final(report)),
{
    let fam = &data.config.campaign_skeleton.succession_beat_family;
    if !report.leader_died || crate::util::is_blank(fam) || sim.contract.is_none() {
        return false;
    }
    report.leader_died = false;
    force_family_beat(sim, data, fam.as_str(), report);
    true
}

/// Whether the sitting leader's reign has run long enough to be marked.
pub open spec fn long_reign(s: SimState, k: CampaignSkeletonConfig) -> bool {
    &&& k.long_reign_years != 0
    &&& k.long_reign_beat_family@.len() > 0
    &&& s.contract is Some
    &&& !s.dynasty.long_reign_marked
    &&& leader_index(s.dynasty.members@) is Some
    &&& s.dynasty.leader_reign_years >= k.long_reign_years
}

/// What [`fire_long_reign_beat`] does: whether it fires, and what the ship and the
/// report become.
pub open spec fn long_reign_beat_step(
    s0: SimState,
    data: GameData,
    r0: TickReport,
    s1: SimState,
    r1: TickReport,
    fired: bool,
) -> bool {
    &&& fired == long_reign(s0, data.config.campaign_skeleton)
    &&& !fired ==> s1 == s0 && r1 == r0
    &&& fired ==> beat_fired(
        SimState { dynasty: Dynasty { long_reign_marked: true, ..s0.dynasty }, ..s0 },
        data,
        data.config.campaign_skeleton.long_reign_beat_family@,
        r0,
        s1,
        r1,
    )
}

/// An era under one enduring hand: once a sitting leader has held the chair
/// long enough, once per reign, a beat is forced.
pub fn fire_long_reign_beat(sim: &mut SimState, data: &GameData, report: &mut TickReport) -> (fired: bool)
    requires
        event_ready(*old(sim)),
        beats_ok(*data),
    ensures
        long_reign_beat_step(*old(sim), *data, *old(report), *final(sim), *final(report), fired),
        event_ready(*final(sim)),
        keeps_watch(*old(sim), *old(report), *final(sim), *final(report)),
{
    let k = &data.config.campaign_skeleton;
    if k.long_reign_years == 0 || crate::util::is_blank(&k.long_reign_beat_family) || sim.contract.is_none() {
        return false;
    }
    let due = !sim.dynasty.long_reign_marked && sim.dynasty.leader_index().is_some()
        && sim.dynasty.leader_reign_years >= k.long_reign_years;
    if !due {
        return false;
    }
    sim.dynasty.long_reign_marked = true;
    force_family_beat(sim, data, k.long_reign_beat_family.as_str(), report);
    true
}

/// Whether the dynasty-crisis beat looks at all: a size, a family, a voyage.
pub open spec fn line_watched(s: SimState, k: CampaignSkeletonConfig) -> bool {
    k.dynasty_crisis_size != 0 && k.dynasty_crisis_beat_family@.len() > 0 && s.contract is Some
}

/// Whether the founding line has dwindled to its crisis size, unmarked.
pub open spec fn line_dwindled(s: SimState, cfg: GameConfig) -> bool {
    let k = cfg.campaign_skeleton;
    let n = s.dynasty.members.len();
    &&& line_watched(s, k)
    &&& n < cfg.mortality.dynasty_target_size
    &&& !s.dynasty.dynasty_crisis_marked
    &&& n <= k.dynasty_crisis_size
}

/// What [`fire_dynasty_crisis_beat`] does: whether it fires, and what the ship and the
/// report become.
pub open spec fn dynasty_crisis_beat_step(
    s0: SimState,
    data: GameData,
    r0: TickReport,
    s1: SimState,
    r1: TickReport,
    fired: bool,
) -> bool {
    &&& fired == line_dwindled(s0, data.config)
    &&& !fired ==> r1 == r0 && s1 == (if line_watched(
        s0,
        data.config.campaign_skeleton,
    ) && s0.dynasty.members.len() >= data.config.mortality.dynasty_target_size {
        SimState { dynasty: Dynasty { dynasty_crisis_marked: false, ..s0.dynasty }, ..s0 }
    } else {
        s0
    })
    &&& fired ==> beat_fired(
        SimState { dynasty: Dynasty { dynasty_crisis_marked: true, ..s0.dynasty }, ..s0 },
        data,
        data.config.campaign_skeleton.dynasty_crisis_beat_family@,
        r0,
        s1,
        r1,
    )
}

/// The near-end of the family that has led the ship: the line dwindling to
/// its crisis size forces a beat, once per brush with extinction; a line
/// restored to its target size re-arms it.
pub fn fire_dynasty_crisis_beat(sim: &mut SimState, data: &GameData, report: &mut TickReport) -> (fired: bool)
    requires
        event_ready(*old(sim)),
        beats_ok(*data),
    ensures
        dynasty_crisis_beat_step(*old(sim), *data, *old(report), *final(sim), *final(report), fired),
        event_ready(*final(sim)),
        keeps_watch(*old(sim), *old(report), *final(sim), *final(report)),
{
    let k = &data.config.campaign_skeleton;
    if k.dynasty_crisis_size == 0 || crate::util::is_blank(&k.dynasty_crisis_beat_family) || sim.contract.is_none() {
        return false;
    }
    let count = sim.dynasty.members.len();
    if count >= data.config.mortality.dynasty_target_size as usize {
        sim.dynasty.dynasty_crisis_marked = false;
        return false;
    }
    if sim.dynasty.dynasty_crisis_marked || count > k.dynasty_crisis_size as usize {
        return false;
    }
    sim.dynasty.dynasty_crisis_marked = true;
    force_family_beat(sim, data, k.dynasty_crisis_beat_family.as_str(), report);
    true
}

// ---------------------------------------------------------------- the calendar and the charter

/// The first campaign beat (from `k` on) that is unfired and due by `clock`.
pub open spec fn due_beat_from(bs: Seq<CampaignBeat>, clock: u32, k: int) -> Option<int>
    decreases bs.len() - k,
{
    if k < 0 || k >= bs.len() {
        None
    } else if !bs[k].fired && bs[k].month_clock <= clock {
        Some(k)
    } else {
        due_beat_from(bs, clock, k + 1)
    }
}

proof fn lemma_due_beat_from(bs: Seq<CampaignBeat>, clock: u32, k: int)
    requires
        0 <= k,
    ensures
        due_beat_from(bs, clock, k) matches Some(i) ==> k <= i < bs.len(),
    decreases bs.len() - k,
{
    if k < bs.len() {
        lemma_due_beat_from(bs, clock, k + 1);
    }
}

/// The campaign beat due this month, if any.
pub open spec fn due_beat(s: SimState) -> Option<int> {
    match s.contract {
        Some(c) => due_beat_from(c.beats@, s.month_clock, 0),
        None => None,
    }
}

/// The ship with campaign beat `k` marked fired.
pub open spec fn beat_marked(s0: SimState, k: int, m: SimState) -> bool {
    let c = charter_of(s0);
    &&& m.contract matches Some(c2) && c2.beats@ == c.beats@.update(k, CampaignBeat { fired: true, ..c.beats@[k] })
        && c2 == (ActiveContract { beats: c2.beats, ..c })
    &&& m == (SimState { contract: m.contract, ..s0 })
}

/// What [`fire_due_beat`] does: whether it fires, and what the ship and the
/// report become.
pub open spec fn due_beat_step(
    s0: SimState,
    data: GameData,
    r0: TickReport,
    s1: SimState,
    r1: TickReport,
    fired: bool,
) -> bool {
    &&& fired == due_beat(s0) is Some
    &&& !fired ==> s1 == s0 && r1 == r0
    &&& fired ==> {
        let k = due_beat(s0).unwrap();
        exists|m: SimState|
            beat_marked(s0, k, m) && #[trigger] beat_fired(
                m,
                data,
                charter_of(s0).beats@[k].family@,
                r0,
                s1,
                r1,
            )
    }
}

/// A due campaign beat: the first unfired beat laid out at launch whose
/// month has come is marked and forces an event from its family.
pub fn fire_due_beat(sim: &mut SimState, data: &GameData, report: &mut TickReport) -> (fired: bool)
    requires
        event_ready(*old(sim)),
        beats_ok(*data),
    ensures
        due_beat_step(*old(sim), *data, *old(report), *final(sim), *final(report), fired),
        event_ready(*final(sim)),
        keeps_watch(*old(sim), *old(report), *final(sim), *final(report)),
{
    let clock = sim.month_clock;
    let idx = match &sim.contract {
        Some(c) => {
            let mut k: usize = 0;
            let mut found: Option<usize> = None;
            while k < c.beats.len()
                invariant_except_break
                    k <= c.beats.len(),
                    found is None,
                    due_beat_from(c.beats@, clock, 0) == due_beat_from(c.beats@, clock, k as int),
                ensures
                    found matches Some(i) ==> due_beat_from(c.beats@, clock, 0) == Some(i as int),
                    found is None ==> due_beat_from(c.beats@, clock, 0) is None,
                decreases c.beats.len() - k,
            {
                if !c.beats[k].fired && c.beats[k].month_clock <= clock {
                    found = Some(k);
                    break;
                }
                k = k + 1;
            }
            found
        },
        None => None,
    };
    let k = match idx {
        Some(k) => k,
        None => return false,
    };
    let ghost s0 = *sim;
    proof {
        lemma_due_beat_from(charter_of(s0).beats@, clock, 0);
    }
    let mut c = sim.contract.take().unwrap();
    let family = c.beats[k].family.clone();
    c.beats[k].fired = true;
    sim.contract = Some(c);
    let ghost m = *sim;
    proof {
        lemma_due_beat_from(charter_of(s0).beats@, clock, 0);
        assert(beat_marked(s0, k as int, m));
    }
    force_family_beat(sim, data, family.as_str(), report);
    proof {
        assert(beat_fired(m, *data, charter_of(s0).beats@[k as int].family@, *old(report), *sim, *report));
    }
    true
}

/// Whether follow-up `a` is due before `b`: an earlier year, or the same
/// year and an id that sorts first.
pub open spec fn sooner(a: ScheduledEvent, b: ScheduledEvent) -> bool {
    a.fire_year < b.fire_year || (a.fire_year == b.fire_year && text_before(a.template_id@, b.template_id@))
}

/// Among the first `n` follow-ups, the earliest due by `year` (the first
/// of equals).
pub open spec fn earliest_due(evs: Seq<ScheduledEvent>, year: u32, n: int) -> Option<int>
    decreases n,
{
    if n <= 0 {
        None
    } else {
        let prev = earliest_due(evs, year, n - 1);
        if evs[n - 1].fire_year <= year && (match prev {
            None => true,
            Some(p) => sooner(evs[n - 1], evs[p]),
        }) {
            Some(n - 1)
        } else {
            prev
        }
    }
}

proof fn lemma_earliest_due(evs: Seq<ScheduledEvent>, year: u32, n: int)
    requires
        0 <= n <= evs.len(),
    ensures
        earliest_due(evs, year, n) matches Some(i) ==> 0 <= i < n,
    decreases n,
{
    if n > 0 {
        lemma_earliest_due(evs, year, n - 1);
    }
}

/// The follow-up due now, if any.
pub open spec fn followup_due(s: SimState) -> Option<int> {
    earliest_due(s.scheduled_events@, s.year, s.scheduled_events.len() as int)
}

/// What [`fire_scheduled_beat`] does: whether it fires, and what the ship and the
/// report become.
pub open spec fn scheduled_beat_step(
    s0: SimState,
    data: GameData,
    r0: TickReport,
    s1: SimState,
    r1: TickReport,
    fired: bool,
) -> bool {
    &&& fired == followup_due(s0) is Some
    &&& !fired ==> s1 == s0 && r1 == r0
    &&& fired ==> {
        let i = followup_due(s0).unwrap();
        exists|m: SimState|
            m.scheduled_events@ == s0.scheduled_events@.remove(i) && m == (SimState {
                scheduled_events: m.scheduled_events,
                ..s0
            }) && #[trigger] event_forced(
                m,
                data,
                s0.scheduled_events@[i].template_id,
                r0,
                s1,
                r1,
            )
    }
}

/// An authored arc lands on its promised clock: the earliest follow-up due
/// this year (ties broken by id) is struck from the schedule and its event
/// forced past its gates.
pub fn fire_scheduled_beat(sim: &mut SimState, data: &GameData, report: &mut TickReport) -> (fired: bool)
    requires
        event_ready(*old(sim)),
        beats_ok(*data),
    ensures
        scheduled_beat_step(*old(sim), *data, *old(report), *final(sim), *final(report), fired),
        event_ready(*final(sim)),
        keeps_watch(*old(sim), *old(report), *final(sim), *final(report)),
{
    let year = sim.year;
    let evs = &sim.scheduled_events;
    let mut best: Option<usize> = None;
    let mut i: usize = 0;
    while i < evs.len()
        invariant
            i <= evs.len(),
            best == (match earliest_due(evs@, year, i as int) {
                Some(b) => Some(b as usize),
                None => None::<usize>,
            }),
            earliest_due(evs@, year, i as int) matches Some(b) ==> 0 <= b < i,
        decreases evs.len() - i,
    {
        let e = &evs[i];
        if e.fire_year <= year {
            let take = match best {
                None => true,
                Some(b) => e.fire_year < evs[b].fire_year || (e.fire_year == evs[b].fire_year && str_before(
                    e.template_id.as_str(),
                    evs[b].template_id.as_str(),
                )),
            };
            if take {
                best = Some(i);
            }
        }
        i = i + 1;
    }
    let b = match best {
        Some(b) => b,
        None => return false,
    };
    let ghost s0 = *sim;
    let scheduled = sim.scheduled_events.remove(b);
    let ghost m = *sim;
    let ghost r0 = *report;
    force_event_beat(sim, data, scheduled.template_id, report);
    proof {
        assert(event_forced(m, *data, s0.scheduled_events@[b as int].template_id, r0, *sim, *report));
    }
    true
}

/// Whether the charter's next scripted beat has come: its voyage has run
/// the beat's years.
pub open spec fn script_due(s: SimState) -> bool {
    s.contract matches Some(c) && (c.scheduled_beats_fired as int) < c.scheduled_beats.len() && c.months_elapsed
        / 12 >= c.scheduled_beats@[c.scheduled_beats_fired as int].at_year
}

/// What [`fire_charter_scheduled_beat`] does: whether it fires, and what the ship and the
/// report become.
pub open spec fn charter_scheduled_beat_step(
    s0: SimState,
    data: GameData,
    r0: TickReport,
    s1: SimState,
    r1: TickReport,
    fired: bool,
) -> bool {
    &&& fired == script_due(s0)
    &&& !fired ==> s1 == s0 && r1 == r0
    &&& fired ==> {
        let c = charter_of(s0);
        exists|id: String|
            id@ == c.scheduled_beats@[c.scheduled_beats_fired as int].template_id@ && #[trigger] event_forced(
                recharter(s0, ActiveContract { scheduled_beats_fired: bump(c.scheduled_beats_fired), ..c }),
                data,
                id,
                r0,
                s1,
                r1,
            )
    }
}

/// A charter built around a reckoning on a known clock: once the voyage has
/// run to its next scripted beat's year, the beat is counted and its event
/// forced past its gates.
pub fn fire_charter_scheduled_beat(sim: &mut SimState, data: &GameData, report: &mut TickReport) -> (fired: bool)
    requires
        event_ready(*old(sim)),
        beats_ok(*data),
    ensures
        charter_scheduled_beat_step(*old(sim), *data, *old(report), *final(sim), *final(report), fired),
        event_ready(*final(sim)),
        keeps_watch(*old(sim), *old(report), *final(sim), *final(report)),
{
    let due = match &sim.contract {
        Some(c) => (c.scheduled_beats_fired as usize) < c.scheduled_beats.len() && c.months_elapsed / 12
            >= c.scheduled_beats[c.scheduled_beats_fired as usize].at_year,
        None => false,
    };
    if !due {
        return false;
    }
    let mut c = sim.contract.take().unwrap();
    let id = c.scheduled_beats[c.scheduled_beats_fired as usize].template_id.clone();
    c.scheduled_beats_fired = c.scheduled_beats_fired.saturating_add(1);
    sim.contract = Some(c);
    let ghost m = *sim;
    let ghost r0 = *report;
    let ghost gid = id;
    force_event_beat(sim, data, id, report);
    proof {
        assert(event_forced(m, *data, gid, r0, *sim, *report));
    }
    true
}

} // verus!
