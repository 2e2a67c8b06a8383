//! The campaign state: everything a playthrough writes.

use vstd::prelude::*;

use crate::data::{ContractObjective, ContractPhase, EventCategory, MetricKind, PhaseSegment, ScheduledBeat};
use crate::deltas::{PopulationDelta, ResourceDelta, ShipDelta};
use crate::fixed::{add_count, add_floor0, add_parts, add_unit, clamp, floor0, unit, ONE};
use crate::rolls::Rolls;

verus! {

// ---------------------------------------------------------------- top-level game state

/// Which top-level screen is active. Exactly one is.
pub enum GameState {
    /// The main menu.
    Menu,
    /// A campaign in play.
    Gameplay(Box<SimState>),
}

/// A requested change of top-level state.
#[derive(Debug, Clone, PartialEq)]
pub enum StateTransition {
    /// Start a fresh campaign with the chosen legacy and seed.
    NewCampaign { legacy_id: String, seed: u64 },
    /// Load the autosave slot and enter gameplay.
    LoadCampaign,
    /// Autosave (if in gameplay) and return to the main menu.
    ToMenu,
}

// ---------------------------------------------------------------- resources

/// The five stored resources.
#[derive(Clone, Copy, Debug, PartialEq, Eq)]
pub struct ResourceState {
    pub credits: i64,
    pub energy: i64,
    pub minerals: i64,
    pub food: i64,
    pub influence: i64,
}

impl ResourceState {
    /// Whether applying `d` leaves every resource non-negative.
    pub open spec fn affords(self, d: ResourceDelta) -> bool {
        &&& self.credits + d.credits >= 0
        &&& self.energy + d.energy >= 0
        &&& self.minerals + d.minerals >= 0
        &&& self.food + d.food >= 0
        &&& self.influence + d.influence >= 0
    }

    /// The stores after `d`: each floored at zero (and saturating at the top).
    pub open spec fn applied(self, d: ResourceDelta) -> ResourceState {
        ResourceState {
            credits: floor0(self.credits + d.credits) as i64,
            energy: floor0(self.energy + d.energy) as i64,
            minerals: floor0(self.minerals + d.minerals) as i64,
            food: floor0(self.food + d.food) as i64,
            influence: floor0(self.influence + d.influence) as i64,
        }
    }

    /// See [`Self::affords`].
    pub fn can_afford(&self, d: &ResourceDelta) -> (r: bool)
        ensures
            r == self.affords(*d),
    {
        (self.credits as i128) + (d.credits as i128) >= 0 && (self.energy as i128) + (
        d.energy as i128) >= 0 && (self.minerals as i128) + (d.minerals as i128) >= 0 && (
        self.food as i128) + (d.food as i128) >= 0 && (self.influence as i128) + (
        d.influence as i128) >= 0
    }

    /// See [`Self::applied`].
    pub fn apply(&mut self, d: &ResourceDelta)
        ensures
            *final(self) == old(self).applied(*d),
    {
        self.credits = add_floor0(self.credits, d.credits);
        self.energy = add_floor0(self.energy, d.energy);
        self.minerals = add_floor0(self.minerals, d.minerals);
        self.food = add_floor0(self.food, d.food);
        self.influence = add_floor0(self.influence, d.influence);
    }
}

/// Yearly production of each resource, in millionths of a unit.
#[derive(Clone, Copy, Debug, PartialEq, Eq)]
pub struct ProductionRates {
    pub credits: i64,
    pub energy: i64,
    pub minerals: i64,
    pub food: i64,
    pub influence: i64,
}

// ---------------------------------------------------------------- market

/// A tradeable good.
#[derive(Clone, Copy, Debug, PartialEq, Eq, Structural)]
pub enum TradeResource {
    Energy,
    Minerals,
    Food,
    Influence,
}

/// The base price of a good, in millionths of a credit per unit.
pub open spec fn spec_base_price(r: TradeResource) -> i64 {
    match r {
        TradeResource::Energy => 2_000_000,
        TradeResource::Minerals => 3_000_000,
        TradeResource::Food => 1_500_000,
        TradeResource::Influence => 10_000_000,
    }
}

/// See [`spec_base_price`].
pub fn base_price(r: TradeResource) -> (p: i64)
    ensures
        p == spec_base_price(r),
        p > 0,
{
    match r {
        TradeResource::Energy => 2_000_000,
        TradeResource::Minerals => 3_000_000,
        TradeResource::Food => 1_500_000,
        TradeResource::Influence => 10_000_000,
    }
}

/// A good's display name.
pub open spec fn trade_label(r: TradeResource) -> Seq<char> {
    match r {
        TradeResource::Energy => "energy"@,
        TradeResource::Minerals => "minerals"@,
        TradeResource::Food => "food"@,
        TradeResource::Influence => "influence"@,
    }
}

impl TradeResource {
    /// The good's display name (see [`trade_label`]).
    pub fn label(self) -> (s: &'static str)
        ensures
            s@ == trade_label(self),
    {
        match self {
            TradeResource::Energy => "energy",
            TradeResource::Minerals => "minerals",
            TradeResource::Food => "food",
            TradeResource::Influence => "influence",
        }
    }
}

/// One good's local price (millionths of a credit) and its last move.
#[derive(Clone, Copy, Debug, PartialEq, Eq)]
pub struct MarketEntry {
    pub resource: TradeResource,
    pub price: i64,
    pub trend: i64,
}

/// The waypoint market.
#[derive(Clone, Debug)]
pub struct Market {
    pub entries: Vec<MarketEntry>,
    /// How far one traded unit moves the price, as a fraction of base.
    pub impact_per_unit: i64,
}

// ---------------------------------------------------------------- ship

/// The ship's condition and loadout.
#[derive(Clone, Debug)]
pub struct ShipState {
    pub hull_integrity: i64,
    pub life_support: i64,
    pub fuel: i64,
    pub spare_parts: i32,
    pub hull: String,
    pub engine: String,
    pub weapon: Option<String>,
    /// Components recovered and not yet installed.
    pub salvage: Vec<String>,
}

impl ShipState {
    /// The ship after `d`: fractions kept in 0-1, parts floored at zero.
    pub open spec fn applied(self, d: ShipDelta) -> ShipState {
        ShipState {
            hull_integrity: unit(self.hull_integrity + d.hull_integrity) as i64,
            life_support: unit(self.life_support + d.life_support) as i64,
            fuel: unit(self.fuel + d.fuel) as i64,
            spare_parts: clamp(self.spare_parts + d.spare_parts, 0, i32::MAX as int) as i32,
            ..self
        }
    }

    /// See [`Self::applied`].
    pub fn apply(&mut self, d: &ShipDelta)
        ensures
            *final(self) == old(self).applied(*d),
    {
        self.hull_integrity = add_unit(self.hull_integrity, d.hull_integrity);
        self.life_support = add_unit(self.life_support, d.life_support);
        self.fuel = add_unit(self.fuel, d.fuel);
        self.spare_parts = add_parts(self.spare_parts, d.spare_parts);
    }
}

// ---------------------------------------------------------------- population

/// The people aboard.
#[derive(Clone, Copy, Debug, PartialEq, Eq)]
pub struct PopulationState {
    pub count: u32,
    pub morale: i64,
    pub unity: i64,
    pub stability: i64,
    pub legacy_loyalty: i64,
    pub adaptation: i64,
    pub cultural_drift: i64,
}

impl PopulationState {
    /// The people after `d`: count floored at zero, fractions kept in 0-1.
    pub open spec fn applied(self, d: PopulationDelta) -> PopulationState {
        PopulationState {
            count: clamp(self.count + d.count, 0, u32::MAX as int) as u32,
            morale: unit(self.morale + d.morale) as i64,
            unity: unit(self.unity + d.unity) as i64,
            stability: unit(self.stability + d.stability) as i64,
            legacy_loyalty: unit(self.legacy_loyalty + d.legacy_loyalty) as i64,
            adaptation: unit(self.adaptation + d.adaptation) as i64,
            cultural_drift: unit(self.cultural_drift + d.cultural_drift) as i64,
        }
    }

    /// See [`Self::applied`].
    pub fn apply(&mut self, d: &PopulationDelta)
        ensures
            *final(self) == old(self).applied(*d),
    {
        self.count = add_count(self.count, d.count);
        self.morale = add_unit(self.morale, d.morale);
        self.unity = add_unit(self.unity, d.unity);
        self.stability = add_unit(self.stability, d.stability);
        self.legacy_loyalty = add_unit(self.legacy_loyalty, d.legacy_loyalty);
        self.adaptation = add_unit(self.adaptation, d.adaptation);
        self.cultural_drift = add_unit(self.cultural_drift, d.cultural_drift);
    }
}

// ---------------------------------------------------------------- legacy

/// The legacy's tracked counters.
#[derive(Clone, Debug)]
pub struct LegacyTrack {
    pub legacy_id: String,
    pub tradition_points: i32,
    pub body_horror_events: i32,
    pub existential_dread: i64,
    pub piracy_reputation: i64,
}

// ---------------------------------------------------------------- dynasty and crew

/// One member of the ruling line.
#[derive(Clone, Debug)]
pub struct DynastyMember {
    pub id: u32,
    pub name: String,
    pub age: u32,
    pub leadership: u32,
    pub is_leader: bool,
}

/// The ruling line.
#[derive(Clone, Debug)]
pub struct Dynasty {
    pub members: Vec<DynastyMember>,
    pub designated_heir: Option<u32>,
    pub extinct: bool,
    pub generation: u32,
    pub years_since_generation: u32,
    pub births_this_generation: u32,
    pub next_member_id: u32,
    /// Years the sitting leader has held the first chair.
    pub leader_reign_years: u32,
    pub long_reign_marked: bool,
    pub dynasty_crisis_marked: bool,
}

/// Index of the first member flagged leader among the first `n`.
pub open spec fn leader_index_in(members: Seq<DynastyMember>, n: int) -> Option<int>
    decreases n,
{
    if n <= 0 {
        None
    } else {
        match leader_index_in(members, n - 1) {
            Some(i) => Some(i),
            None => if members[n - 1].is_leader {
                Some(n - 1)
            } else {
                None
            },
        }
    }
}

/// Index of the first member flagged leader.
pub open spec fn leader_index(members: Seq<DynastyMember>) -> Option<int> {
    leader_index_in(members, members.len() as int)
}

proof fn lemma_leader_index_in(members: Seq<DynastyMember>, n: int)
    requires
        0 <= n <= members.len(),
    ensures
        match leader_index_in(members, n) {
            Some(i) => 0 <= i < n && members[i].is_leader && forall|j: int|
                0 <= j < i ==> !(#[trigger] members[j]).is_leader,
            None => forall|j: int| 0 <= j < n ==> !(#[trigger] members[j]).is_leader,
        },
    decreases n,
{
    if n > 0 {
        lemma_leader_index_in(members, n - 1);
    }
}

proof fn lemma_leader_index_stable(members: Seq<DynastyMember>, n: int, m: int)
    requires
        0 <= n <= m,
        leader_index_in(members, n) is Some,
    ensures
        leader_index_in(members, m) == leader_index_in(members, n),
    decreases m - n,
{
    if m > n {
        lemma_leader_index_stable(members, n, m - 1);
    }
}

/// The leader is found at `h` when only `h` carries the flag before it.
pub proof fn lemma_leader_unique(members: Seq<DynastyMember>, h: int)
    requires
        0 <= h < members.len(),
        members[h].is_leader,
        forall|j: int| 0 <= j < h ==> !(#[trigger] members[j]).is_leader,
    ensures
        leader_index(members) == Some(h),
{
    lemma_leader_index_in(members, h);
    assert(leader_index_in(members, h + 1) == Some(h));
    lemma_leader_index_stable(members, h + 1, members.len() as int);
}

/// Taking out one member who does not lead leaves the line with a leader.
pub proof fn lemma_leader_survives_removal(members: Seq<DynastyMember>, p: int)
    requires
        0 <= p < members.len(),
        !members[p].is_leader,
        leader_index(members) is Some,
    ensures
        leader_index(members.remove(p)) is Some,
{
    let n = members.len() as int;
    let rest = members.remove(p);
    lemma_leader_index_in(members, n);
    lemma_leader_index_in(rest, n - 1);
    let i = leader_index(members).unwrap();
    let k = if p < i {
        i - 1
    } else {
        i
    };
    assert(rest[k] == members[i]);
}

impl Dynasty {
    /// The index of the sitting leader, if any.
    pub fn leader_index(&self) -> (r: Option<usize>)
        ensures
            r matches Some(i) ==> leader_index(self.members@) == Some(i as int),
            r is None ==> leader_index(self.members@) is None,
            r matches Some(i) ==> i < self.members.len() && self.members@[i as int].is_leader,
            r is None <==> forall|j: int|
                0 <= j < self.members.len() ==> !(#[trigger] self.members@[j]).is_leader,
    {
        proof {
            lemma_leader_index_in(self.members@, self.members.len() as int);
        }
        let mut i: usize = 0;
        while i < self.members.len()
            invariant
                i <= self.members.len(),
                leader_index_in(self.members@, i as int) is None,
                forall|j: int| 0 <= j < i ==> !(#[trigger] self.members@[j]).is_leader,
            decreases self.members.len() - i,
        {
            proof {
                lemma_leader_index_in(self.members@, (i + 1) as int);
            }
            if self.members[i].is_leader {
                proof {
                    lemma_leader_index_stable(
                        self.members@,
                        (i + 1) as int,
                        self.members.len() as int,
                    );
                }
                return Some(i);
            }
            i = i + 1;
        }
        None
    }
}

/// A crew officer.
#[derive(Clone, Debug)]
pub struct CrewMember {
    pub id: u32,
    pub name: String,
    pub age: u32,
    pub archetype_id: String,
}

// ---------------------------------------------------------------- factions

/// Whether a people is still aboard.
#[derive(Clone, Copy, Debug, PartialEq, Eq, Structural)]
pub enum FactionStatus {
    Aboard,
    Departed,
    Merged,
}

/// One people's standing aboard.
#[derive(Clone, Debug)]
pub struct FactionState {
    pub faction_id: String,
    pub members: u32,
    pub status: FactionStatus,
    pub approval: i64,
    pub mood_band: i32,
}

/// A people launches neutral.
pub open spec fn spec_default_approval() -> i64 {
    500_000
}

/// See [`spec_default_approval`].
pub fn default_approval() -> (r: i64)
    ensures
        r == spec_default_approval(),
        r == ONE / 2,
{
    500_000
}

impl FactionState {
    /// Whether the people rides aboard.
    pub open spec fn aboard(self) -> bool {
        self.status == FactionStatus::Aboard
    }

    /// See [`Self::aboard`].
    pub fn is_aboard(&self) -> (r: bool)
        ensures
            r == self.aboard(),
    {
        self.status == FactionStatus::Aboard
    }

    /// Shift approval by `delta`, kept in 0-1.
    pub fn adjust_approval(&mut self, delta: i64)
        ensures
            final(self).approval == unit(old(self).approval + delta),
            final(self).faction_id == old(self).faction_id,
            final(self).members == old(self).members,
            final(self).status == old(self).status,
            final(self).mood_band == old(self).mood_band,
    {
        self.approval = add_unit(self.approval, delta);
    }
}

// ---------------------------------------------------------------- subsystems

/// One module's tier, physical condition, and the crew's living know-how.
#[derive(Clone, Debug)]
pub struct SubsystemState {
    pub id: String,
    pub tier: u32,
    pub condition: i64,
    pub knowledge: i64,
}

// ---------------------------------------------------------------- contract

/// A success metric being tracked.
#[derive(Clone, Debug)]
pub struct MetricState {
    pub id: String,
    pub kind: MetricKind,
    pub name: String,
    pub weight: i64,
    pub target: i64,
    pub current: i64,
}

/// A milestone and whether it has paid out.
#[derive(Clone, Debug)]
pub struct MilestoneState {
    pub id: String,
    pub name: String,
    pub progress_threshold: i64,
    pub reached: bool,
    pub reward: ResourceDelta,
}

/// One scheduled campaign beat.
#[derive(Clone, Debug)]
pub struct CampaignBeat {
    pub month_clock: u32,
    pub family: String,
    pub fired: bool,
}

/// The mission under way.
#[derive(Clone, Debug)]
pub struct ActiveContract {
    pub template_id: String,
    pub name: String,
    pub objective: ContractObjective,
    pub target_duration_years: u32,
    pub months_elapsed: u32,
    pub phase: ContractPhase,
    pub phases: Vec<PhaseSegment>,
    pub phase_index: usize,
    pub metrics: Vec<MetricState>,
    pub milestones: Vec<MilestoneState>,
    pub starting_population: u32,
    pub objective_target: i64,
    pub objective_unit: String,
    pub objective_progress: i64,
    pub healthy_food_months: u32,
    pub healthy_energy_months: u32,
    pub tags: Vec<String>,
    pub hazard: i64,
    pub objective_subsystem: String,
    /// The campaign beats laid out at launch.
    pub beats: Vec<CampaignBeat>,
    /// How many of each threshold ladder's rungs have fired this voyage.
    pub drift_beats_fired: u32,
    pub adaptation_beats_fired: u32,
    pub crisis_beats_fired: u32,
    pub loyalty_beats_fired: u32,
    pub stability_beats_fired: u32,
    pub anniversaries_fired: u32,
    pub flourish_beats_fired: u32,
    pub objective_beats_fired: u32,
    pub homecoming_beat_fired: bool,
    pub midvoyage_beat_fired: bool,
    pub scheduled_beats: Vec<ScheduledBeat>,
    pub scheduled_beats_fired: u32,
}

// ---------------------------------------------------------------- pending decisions and the log

/// A dilemma waiting on the council.
#[derive(Clone, Debug)]
pub struct PendingDilemma {
    pub dilemma_id: String,
    pub rolled_month_clock: u32,
}

/// An event waiting on the council.
#[derive(Clone, Debug)]
pub struct PendingEvent {
    pub template_id: String,
    pub rolled_month_clock: u32,
}

/// A follow-up event due in a given year.
#[derive(Clone, Debug)]
pub struct ScheduledEvent {
    pub template_id: String,
    pub fire_year: u32,
}

/// One line of the ship's log.
#[derive(Clone, Debug)]
pub struct LogEntry {
    pub month_clock: u32,
    pub text: String,
}

/// A reputation trait's value.
#[derive(Clone, Debug)]
pub struct ReputationEntry {
    pub id: String,
    pub value: i64,
}

/// How many times an event has fired.
#[derive(Clone, Debug)]
pub struct FireCount {
    pub id: String,
    pub count: u32,
}

// ---------------------------------------------------------------- the campaign

/// Everything a campaign writes.
#[derive(Clone, Debug)]
pub struct SimState {
    /// Draws for the next rule that rolls.
    pub rolls: Rolls,
    pub year: u32,
    pub month_clock: u32,
    pub last_event_month_clock: u32,
    pub market: Market,
    pub resources: ResourceState,
    pub ship: ShipState,
    pub population: PopulationState,
    pub legacy: LegacyTrack,
    pub dynasty: Dynasty,
    pub crew: Vec<CrewMember>,
    pub contract: Option<ActiveContract>,
    pub pending_dilemma: Option<PendingDilemma>,
    pub pending_event: Option<PendingEvent>,
    pub log: Vec<LogEntry>,
    pub factions: Vec<FactionState>,
    pub consequences: Vec<String>,
    pub reputation: Vec<ReputationEntry>,
    pub subsystems: Vec<SubsystemState>,
    pub event_fire_counts: Vec<FireCount>,
    pub lean_food_years: u32,
    pub fat_food_years: u32,
    pub scheduled_events: Vec<ScheduledEvent>,
    pub production: ProductionRates,
    /// Months the ship coasted on empty tanks.
    pub stalled_months: u32,
    /// Whether the tanks ran dry in transit this year.
    pub fuel_stalled_this_year: bool,
    /// Years in a row spent coasting on empty tanks.
    pub fuel_stall_years: u32,
    /// Fuel gathered since the last report, in millionths of a tank.
    pub fuel_scooped_accum: i64,
    /// The event categories the council leaves to its advisors.
    pub delegation: Vec<EventCategory>,
    /// Modules whose collapse beat has fired this campaign.
    pub subsystem_beats_fired: Vec<String>,
    /// Whether the hull stood at or below its red line when last looked at (-1) or not (0).
    pub hull_beat_band: i32,
    /// The reputation band last marked: famed (1), notorious (-1) or neither (0).
    pub reputation_beat_band: i32,
    pub depopulation_beats_fired: u32,
    pub founding_beat_fired: bool,
    /// The people last marked as holding a clear majority ("" for none yet).
    pub last_dominant_faction: String,
}

/// A living line has someone at its head.
pub open spec fn line_led(s: SimState) -> bool {
    !s.dynasty.extinct ==> leader_index(s.dynasty.members@) is Some
}

impl SimState {
    /// Every 0-1 quantity of the campaign is in range.
    pub open spec fn wf(self) -> bool {
        &&& 0 <= self.ship.hull_integrity <= ONE
        &&& 0 <= self.ship.life_support <= ONE
        &&& 0 <= self.ship.fuel <= ONE
        &&& self.ship.spare_parts >= 0
        &&& self.resources.food >= 0
        &&& self.resources.credits >= 0
        &&& 0 <= self.population.morale <= ONE
        &&& 0 <= self.population.unity <= ONE
        &&& 0 <= self.population.stability <= ONE
        &&& 0 <= self.population.legacy_loyalty <= ONE
        &&& 0 <= self.population.adaptation <= ONE
        &&& 0 <= self.population.cultural_drift <= ONE
        &&& 0 <= self.legacy.existential_dread <= ONE
        &&& 0 <= self.legacy.piracy_reputation <= ONE
        &&& -ONE <= self.market.impact_per_unit <= ONE
        &&& forall|i: int|
            0 <= i < self.subsystems.len() ==> 0 <= (#[trigger] self.subsystems@[i]).condition
                <= ONE && 0 <= self.subsystems@[i].knowledge <= ONE
        &&& forall|i: int|
            0 <= i < self.factions.len() ==> 0 <= (#[trigger] self.factions@[i]).approval <= ONE
        &&& forall|i: int|
            0 <= i < self.reputation.len() ==> 0 <= (#[trigger] self.reputation@[i]).value <= ONE
    }
}

} // verus!
