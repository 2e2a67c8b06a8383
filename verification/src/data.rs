//! The authored content catalog: ship components, subsystems, legacies and
//! their dilemmas, factions, charters, and events.

use vstd::prelude::*;

use crate::config::GameConfig;
use crate::deltas::{PopulationDelta, ResourceDelta, ShipDelta};

verus! {

// ---------------------------------------------------------------- components

/// The slot a ship component fits.
#[derive(Clone, Copy, Debug, PartialEq, Eq, Structural)]
pub enum ComponentKind {
    Hull,
    Engine,
    Weapon,
}

/// What one installed component contributes.
#[derive(Clone, Copy, Debug, PartialEq, Eq)]
pub struct ComponentStats {
    pub cargo: i32,
    pub crew_capacity: i32,
    pub speed: i32,
    pub combat: i32,
    pub fuel_regen: i32,
}

/// One catalog component.
#[derive(Clone, Debug)]
pub struct ShipComponent {
    pub id: String,
    pub kind: ComponentKind,
    pub name: String,
    pub stats: ComponentStats,
}

// ---------------------------------------------------------------- subsystems

/// One upgrade tier of a subsystem.
#[derive(Clone, Debug)]
pub struct TierDef {
    /// Fraction of a buffered family's harm this tier removes at full condition.
    pub severity_reduction: i64,
    /// Roll-weight multiplier on the buffered family at full condition.
    pub weight_multiplier: i64,
    pub cost: ResourceDelta,
    pub flavor: String,
}

/// A ship module (medical bay, agriculture, ...).
#[derive(Clone, Debug)]
pub struct SubsystemDef {
    pub id: String,
    pub name: String,
    /// The event family this module buffers ("" for none).
    pub buffers_family: String,
    /// Tiers 1..=n; tier 0 is the unupgraded baseline.
    pub tiers: Vec<TierDef>,
    pub repair_knowledge_required: i64,
    pub repair_minerals_cost: i64,
    pub repair_parts_cost: i32,
    pub decay_per_year: i64,
}

// ---------------------------------------------------------------- legacies

/// The effect of one dilemma branch.
#[derive(Clone, Debug)]
pub struct DilemmaEffect {
    pub resource_delta: ResourceDelta,
    pub ship_delta: ShipDelta,
    pub population_delta: PopulationDelta,
    pub tradition_points: i32,
    pub body_horror_events: i32,
    pub existential_dread: i64,
    pub piracy_reputation: i64,
    pub log: String,
}

/// One choice of a dilemma.
#[derive(Clone, Debug)]
pub struct DilemmaOption {
    pub id: String,
    pub label: String,
    pub success_chance: i64,
    pub success: DilemmaEffect,
    pub failure: DilemmaEffect,
    /// A faction whose dominance shifts the odds ("" for none).
    pub dominant_faction: String,
    pub dominant_faction_odds: i64,
}

/// A generational dilemma.
#[derive(Clone, Debug)]
pub struct DilemmaDef {
    pub id: String,
    pub title: String,
    pub options: Vec<DilemmaOption>,
}

/// A founding legacy (preservers, adaptors, wanderers).
#[derive(Clone, Debug)]
pub struct LegacyDef {
    pub id: String,
    pub name: String,
    pub dilemmas: Vec<DilemmaDef>,
}

// ---------------------------------------------------------------- factions

/// A people who may ride aboard.
#[derive(Clone, Debug)]
pub struct FactionDef {
    pub id: String,
    pub name: String,
    /// Lean toward change (+) or tradition (-), in millionths.
    pub ideology: i64,
    /// The subsystem this people tends ("" for none).
    pub tends: String,
    /// Lines for an ordinary quiet year while this people runs the ship.
    pub ambient: Vec<String>,
    /// Peoples who resent favor shown to this one.
    pub rivals: Vec<String>,
    /// Peoples who share in favor shown to this one.
    pub allies: Vec<String>,
}

/// A crew post.
#[derive(Clone, Debug)]
pub struct CrewArchetype {
    pub id: String,
    pub name: String,
}

// ---------------------------------------------------------------- gates shared by content

/// A named signed change (reputation trait, faction approval).
#[derive(Clone, Debug)]
pub struct NamedDelta {
    pub id: String,
    pub delta: i64,
}

/// Reputation `id` compared to `threshold`.
#[derive(Clone, Debug)]
pub struct ReputationGate {
    pub id: String,
    pub threshold: i64,
}

/// Subsystem `id`'s condition (or knowledge) at or below `below`.
#[derive(Clone, Debug)]
pub struct SubsystemGate {
    pub id: String,
    pub below: i64,
}

/// Subsystem `id`'s knowledge at least `at_least`.
#[derive(Clone, Debug)]
pub struct KnowledgeFloor {
    pub id: String,
    pub at_least: i64,
}

/// Faction `id` aboard with approval at or below `below`.
#[derive(Clone, Debug)]
pub struct ApprovalCeiling {
    pub id: String,
    pub below: i64,
}

/// Faction `id` aboard with approval at least `at_least`.
#[derive(Clone, Debug)]
pub struct ApprovalFloor {
    pub id: String,
    pub at_least: i64,
}

/// A change to one subsystem's condition and knowledge.
#[derive(Clone, Debug)]
pub struct SubsystemDelta {
    pub id: String,
    pub condition: i64,
    pub knowledge: i64,
}

// ---------------------------------------------------------------- contracts

/// The authored segments of a mission.
#[derive(Clone, Copy, Debug, PartialEq, Eq, Structural)]
pub enum ContractPhase {
    Preparation,
    Travel,
    Operation,
    Return,
    Completion,
}

/// One authored segment: `years` of `kind`.
#[derive(Clone, Copy, Debug, PartialEq, Eq)]
pub struct PhaseSegment {
    pub kind: ContractPhase,
    pub years: u32,
}

/// What a charter is for.
#[derive(Clone, Copy, Debug, PartialEq, Eq, Structural)]
pub enum ContractObjective {
    Colonize,
    Mining,
    Research,
    Rescue,
    Diplomacy,
    Salvage,
}

/// What a success metric measures.
#[derive(Clone, Copy, Debug, PartialEq, Eq, Structural)]
pub enum MetricKind {
    MissionCompletion,
    PopulationSurvival,
    ResourceEfficiency,
    SocialCohesion,
}

/// A weighted success metric.
#[derive(Clone, Debug)]
pub struct SuccessMetric {
    pub id: String,
    pub kind: MetricKind,
    pub name: String,
    pub weight: i64,
    pub target: i64,
}

/// A milestone paying `reward` once progress reaches the threshold.
#[derive(Clone, Debug)]
pub struct MilestoneDef {
    pub id: String,
    pub name: String,
    pub progress_threshold: i64,
    pub reward: ResourceDelta,
}

/// The lasting capability a charter seen through leaves the ship.
#[derive(Clone, Debug)]
pub struct CompletionReward {
    pub resource: ResourceDelta,
    pub population: PopulationDelta,
    pub subsystem_deltas: Vec<SubsystemDelta>,
    pub reputation_deltas: Vec<NamedDelta>,
    pub faction_approval_deltas: Vec<NamedDelta>,
    pub log: String,
}

/// The mark a charter given up leaves on the ship's name.
#[derive(Clone, Debug)]
pub struct Abandonment {
    pub reputation_deltas: Vec<NamedDelta>,
    pub log: String,
}

/// An event a charter forces once its voyage has run `at_year` years.
#[derive(Clone, Debug)]
pub struct ScheduledBeat {
    pub at_year: u32,
    pub template_id: String,
}

/// What a charter's route takes from the ship every year of the voyage.
#[derive(Clone, Copy, Debug)]
pub struct AnnualToll {
    pub resource: ResourceDelta,
    pub ship: ShipDelta,
    pub population: PopulationDelta,
}

/// A charter.
#[derive(Clone, Debug)]
pub struct ContractTemplate {
    pub id: String,
    pub name: String,
    pub objective: ContractObjective,
    pub target_duration_years: u32,
    pub phases: Vec<PhaseSegment>,
    pub success_metrics: Vec<SuccessMetric>,
    pub milestones: Vec<MilestoneDef>,
    pub objective_target: i64,
    pub objective_unit: String,
    pub tags: Vec<String>,
    pub hazard: i64,
    pub objective_subsystem: String,
    pub reward: ResourceDelta,
    pub requires_faction_aboard: Vec<String>,
    pub requires_consequence: Vec<String>,
    pub forbidden_consequence: Vec<String>,
    pub min_reputation: Vec<ReputationGate>,
    pub max_reputation: Vec<ReputationGate>,
    pub completion_reward: CompletionReward,
    pub abandonment: Abandonment,
    pub completion_consequence: String,
    /// The route's standing yearly cost (all zero for none).
    pub annual_toll: AnnualToll,
    /// The charter's scripted beats, in ascending year.
    pub scheduled_beats: Vec<ScheduledBeat>,
}

// ---------------------------------------------------------------- events

/// The four event categories.
#[derive(Clone, Copy, Debug, PartialEq, Eq, Structural)]
pub enum EventCategory {
    ImmediateCrisis,
    GenerationalChallenge,
    MissionMilestone,
    LegacyMoment,
}

/// How a whole people leaves the ship.
#[derive(Clone, Copy, Debug, PartialEq, Eq, Structural)]
pub enum FactionLossKind {
    Departure,
    Schism,
}

/// A follow-up event promised for a set number of years later.
#[derive(Clone, Debug)]
pub struct Followup {
    pub template_id: String,
    pub delay_years: u32,
}

/// When an outcome may be chosen (all hold; empty lists always hold).
#[derive(Clone, Debug)]
pub struct OutcomeAvailability {
    pub requires_consequence: Vec<String>,
    pub min_knowledge: Vec<KnowledgeFloor>,
    pub min_reputation: Vec<ReputationGate>,
    pub max_reputation: Vec<ReputationGate>,
    /// "" for no dominant-faction gate.
    pub requires_dominant_faction: String,
}

/// One choice of an event.
#[derive(Clone, Debug)]
pub struct EventOutcome {
    pub id: String,
    pub label: String,
    pub log: String,
    pub resource_delta: ResourceDelta,
    pub ship_delta: ShipDelta,
    pub population_delta: PopulationDelta,
    pub long_term_consequences: Vec<String>,
    pub reputation_deltas: Vec<NamedDelta>,
    pub schedule_followup: Option<Followup>,
    pub grant_component: Option<String>,
    pub force_return: bool,
    pub faction_loss: Option<FactionLossKind>,
    pub faction_loss_id: Option<String>,
    pub faction_merge_id: Option<String>,
    pub subsystem_deltas: Vec<SubsystemDelta>,
    pub faction_approval_deltas: Vec<NamedDelta>,
    pub faction_approval_smallest: i64,
    pub objective_progress_delta: i64,
    pub availability: OutcomeAvailability,
}

/// A twist that rides an event when the ship's state invites it.
#[derive(Clone, Debug)]
pub struct Complication {
    pub id: String,
    pub description_add: String,
    pub log: String,
    pub min_cultural_drift: i64,
    pub condition_below: Vec<SubsystemGate>,
    pub requires_consequence: Vec<String>,
    pub food_below: Option<i64>,
    pub requires_dominant_faction: String,
    pub requires_factions_aboard: Vec<String>,
    pub min_prior_occurrences: u32,
    /// 0 for no ceiling.
    pub max_population: u32,
    pub min_lean_food_years: u32,
    pub min_fat_food_years: u32,
    pub min_reputation: Vec<ReputationGate>,
    pub max_reputation: Vec<ReputationGate>,
    /// Outcome ids whose choice lands the toll (empty: any).
    pub applies_to_outcomes: Vec<String>,
    pub resource_delta: ResourceDelta,
    pub ship_delta: ShipDelta,
    pub population_delta: PopulationDelta,
    pub subsystem_deltas: Vec<SubsystemDelta>,
}

/// An event template with its gates.
#[derive(Clone, Debug)]
pub struct EventTemplate {
    pub id: String,
    pub title: String,
    pub description: String,
    pub category: EventCategory,
    pub family: String,
    pub outcomes: Vec<EventOutcome>,
    pub complications: Vec<Complication>,
    /// Per-legacy roll-weight multipliers (absent: one).
    pub legacy_weight_modifiers: Vec<(String, i64)>,
    pub scheduled_only: bool,
    pub phases: Vec<ContractPhase>,
    pub requires_consequence: Vec<String>,
    pub forbidden_consequence: Vec<String>,
    pub requires_charter_tag: Vec<String>,
    pub requires_dominant_faction: String,
    pub requires_factions_aboard: Vec<String>,
    pub faction_approval_below: Vec<ApprovalCeiling>,
    pub faction_approval_above: Vec<ApprovalFloor>,
    pub knowledge_below: Vec<SubsystemGate>,
    pub condition_below: Vec<SubsystemGate>,
    pub food_below: Option<i64>,
    pub fuel_below: Option<i64>,
    pub spare_parts_below: Option<i32>,
    pub energy_below: Option<i64>,
    pub food_above: Option<i64>,
    pub credits_above: Option<i64>,
    /// 0 for no ceiling.
    pub max_year: u32,
    /// 0 for no ceiling.
    pub max_generation: u32,
    pub min_objective_fraction: i64,
    /// 0 for no ceiling.
    pub max_population: u32,
    /// 0 for no ceiling.
    pub max_dynasty_size: u32,
    pub hull_below: Option<i64>,
    pub life_support_below: Option<i64>,
    pub min_lean_food_years: u32,
    pub min_fat_food_years: u32,
    /// 0 for no ceiling.
    pub max_legacy_loyalty: i64,
    /// 0 for no ceiling.
    pub max_stability: i64,
    pub min_reputation: Vec<ReputationGate>,
    pub max_reputation: Vec<ReputationGate>,
    pub min_year: u32,
    pub min_generation: u32,
    pub min_cultural_drift: i64,
    pub min_morale: i64,
    pub min_unity: i64,
    /// Whether the council must choose (unless the category is delegated).
    pub requires_decision: bool,
}

// ---------------------------------------------------------------- the catalog

/// Everything a campaign reads and never writes.
#[derive(Clone, Debug)]
pub struct GameData {
    pub config: GameConfig,
    pub ship_components: Vec<ShipComponent>,
    pub subsystems: Vec<SubsystemDef>,
    pub legacies: Vec<LegacyDef>,
    pub factions: Vec<FactionDef>,
    pub crew_archetypes: Vec<CrewArchetype>,
    pub contracts: Vec<ContractTemplate>,
    pub events: Vec<EventTemplate>,
    /// Given names for newborn dynasty members.
    pub member_names: Vec<String>,
}

} // verus!
