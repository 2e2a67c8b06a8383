//! Balance configuration. Every 0-1 quantity (a chance, a threshold on a
//! fraction, a per-unit rate) is in millionths of one.

use vstd::prelude::*;

use crate::fixed::{BOUND, ONE};

verus! {

/// Costs and limits of the two repair verbs.
#[derive(Clone, Copy, Debug)]
pub struct RepairConfig {
    /// Field repairs never lift a subsystem above this.
    pub field_ceiling: i64,
    pub field_gain: i64,
    pub field_parts_cost: i32,
    pub field_minerals_cost: i64,
    pub full_credits_cost: i64,
    pub full_minerals_cost: i64,
    pub full_parts_restock: i32,
}

/// How the installed loadout pays back each year.
#[derive(Clone, Copy, Debug)]
pub struct ShipConfig {
    pub credits_per_speed: i64,
    /// Minerals per point of cargo, in millionths of a mineral.
    pub minerals_per_cargo: i64,
    pub fuel_regen_per_point: i64,
    pub combat_dilemma_odds_per_point: i64,
    pub dilemma_odds_cap: i64,
    pub contract_progress_per_speed: i64,
}

/// The failure-risk formula's thresholds and points.
#[derive(Clone, Copy, Debug)]
pub struct FailureRiskConfig {
    pub drift_threshold: i64,
    pub drift_points: i32,
    pub unity_threshold: i64,
    pub unity_points: i32,
    pub tradition_threshold: i32,
    pub tradition_points: i32,
    pub body_horror_threshold: u32,
    pub body_horror_points: i32,
    pub dread_threshold: i64,
    pub dread_points: i32,
    pub piracy_threshold: i64,
    pub piracy_points: i32,
    pub at_risk_threshold: i32,
}

/// Aging and death.
#[derive(Clone, Copy, Debug)]
pub struct MortalityConfig {
    pub monthly_accident_chance: i64,
    pub monthly_base_chance: i64,
    pub onset_age: u32,
    /// Years over which the age-scaled risk doubles.
    pub doubling_years: u32,
    pub dynasty_target_size: u32,
    pub annual_birth_chance: i64,
    pub event_death_loss_threshold: u32,
    pub event_death_chance: i64,
}

/// Officer service.
#[derive(Clone, Copy, Debug)]
pub struct CrewConfig {
    pub retirement_age: u32,
    pub unity_recovery_ceiling: i64,
}

/// How a head-count toll is shown and rolled as a band.
#[derive(Clone, Copy, Debug)]
pub struct RealTimeConfig {
    /// Half-width of the band as a fraction of the toll.
    pub impact_variance: i64,
    /// Tolls smaller than this in magnitude apply exactly.
    pub impact_min_magnitude_for_range: i64,
}

/// Subsystem couplings.
#[derive(Clone, Copy, Debug)]
pub struct SubsystemsConfig {
    pub train_cost_credits: i64,
    pub train_knowledge_gain: i64,
    pub knowledge_decay_per_generation: i64,
    pub education_transmission_per_tier: i64,
    pub education_transmission_condition_penalty: i64,
    pub engineering_decay_swing: i64,
    pub tender_approval_decay_scale: i64,
    pub agriculture_food_bonus_per_tier: i64,
    pub agriculture_condition_food_penalty: i64,
    pub life_support_failure_threshold: i64,
    pub life_support_failure_mortality: i64,
    pub life_support_energy_critical: i64,
    pub agriculture_life_support_contribution: i64,
    pub medical_famine_relief_per_condition: i64,
    pub security_unity_recovery_per_condition: i64,
    pub security_stability_recovery_per_condition: i64,
    pub security_stability_recovery_ceiling: i64,
    pub habitat_morale_swing: i64,
    pub security_crisis_mitigation: i64,
    pub crisis_weight_floor: i64,
    pub objective_condition_penalty: i64,
}

/// The drift a long voyage works on its people each year.
#[derive(Clone, Debug)]
pub struct VoyageDriftConfig {
    pub adaptation_per_year: i64,
    pub cultural_drift_per_year: i64,
    pub legacy_loyalty_per_year: i64,
    pub morale_strain_per_year: i64,
    pub unity_strain_per_year: i64,
    /// Per-legacy multipliers on the identity terms, in millionths.
    pub legacy_multipliers: Vec<(String, i64)>,
    pub dominant_ideology_scale: i64,
    pub archive_drift_resistance: i64,
    pub medical_adaptation_resistance: i64,
    pub agriculture_adaptation_resistance: i64,
}

/// Pools of log lines, drawn by index so repeats read differently.
#[derive(Clone, Debug)]
pub struct FlavorConfig {
    pub retirement: Vec<String>,
    pub obituary: Vec<String>,
    pub crew_death: Vec<String>,
    pub succession: Vec<String>,
    pub extinction: Vec<String>,
    pub subsystem_repair: Vec<String>,
    pub subsystem_training: Vec<String>,
    /// Per-phase pools keyed by "preparation", "travel", "operation", "return",
    /// "completion".
    pub phase_lines: Vec<(String, Vec<String>)>,
    pub ambient: Vec<String>,
    pub ambient_lean: Vec<String>,
    pub ambient_lean_years_threshold: u32,
    pub ambient_hollow: Vec<String>,
    pub ambient_population_threshold: u32,
    pub ambient_drifted: Vec<String>,
    pub ambient_drift_threshold: i64,
    pub ambient_fat: Vec<String>,
    pub ambient_fat_years_threshold: u32,
    /// Years of quiet between two ambient lines (0 for none).
    pub ambient_gap_years: u32,
    pub famine: Vec<String>,
    pub fabrication: Vec<String>,
    pub food_spoilage: Vec<String>,
    pub life_support_loss: Vec<String>,
    pub fuel_stall: Vec<String>,
    pub coming_of_age: Vec<String>,
    /// Years between two reports of fuel gathered (0 for none).
    pub fuel_report_gap_years: u32,
    pub fuel_gain: Vec<String>,
    pub milestone: Vec<String>,
    pub council_summons: Vec<String>,
}

/// A module whose collapse forces a beat: the family drawn when its
/// condition falls to or below the threshold.
#[derive(Clone, Debug)]
pub struct SubsystemBeat {
    pub subsystem: String,
    pub threshold: i64,
    pub family: String,
}

/// The campaign skeleton's beats: the thresholds, dates and families that
/// force an event instead of the month's random roll.
#[derive(Clone, Debug)]
pub struct CampaignSkeletonConfig {
    /// Rising cultural-drift thresholds, in order.
    pub drift_beats: Vec<i64>,
    pub drift_beat_family: String,
    /// Rising adaptation thresholds, in order.
    pub adaptation_beats: Vec<i64>,
    pub adaptation_beat_family: String,
    /// Falling unity thresholds, in order.
    pub crisis_beats: Vec<i64>,
    pub crisis_beat_family: String,
    /// Falling loyalty thresholds, in order.
    pub loyalty_beats: Vec<i64>,
    pub loyalty_beat_family: String,
    /// Falling stability thresholds, in order.
    pub stability_beats: Vec<i64>,
    pub stability_beat_family: String,
    pub subsystem_beats: Vec<SubsystemBeat>,
    pub hull_beat_family: String,
    pub hull_beat_threshold: i64,
    pub reputation_beat_trait: String,
    pub reputation_beat_family: String,
    pub reputation_beat_high: i64,
    pub reputation_beat_low: i64,
    pub recovery_beat_family: String,
    pub recovery_beat_threshold: i64,
    /// Rising morale thresholds, in order.
    pub flourish_beats: Vec<i64>,
    pub flourish_beat_family: String,
    /// Falling fractions of the founding head count, in order.
    pub depopulation_beats: Vec<i64>,
    pub depopulation_beat_family: String,
    /// Rising fractions of the objective, in order.
    pub objective_beats: Vec<i64>,
    pub objective_beat_family: String,
    pub homecoming_beat_family: String,
    pub midvoyage_beat_family: String,
    pub founding_beat_family: String,
    pub founding_beat_year: u32,
    pub power_transition_beat_family: String,
    pub anniversary_years: u32,
    pub anniversary_beat_family: String,
    pub succession_beat_family: String,
    pub long_reign_years: u32,
    pub long_reign_beat_family: String,
    pub dynasty_crisis_size: u32,
    pub dynasty_crisis_beat_family: String,
    pub dead_air_years: u32,
    pub dead_air_pool: Vec<String>,
}

/// Fuel: what the crossing burns, and what running dry costs.
#[derive(Clone, Copy, Debug)]
pub struct ProvisioningConfig {
    /// Fuel burned per month under way, in millionths of a tank.
    pub fuel_burn_per_travel_month: i64,
    /// How much faster the ship wears in a year spent coasting on empty.
    pub no_fuel_decay_multiplier: i64,
}

/// All balance knobs of a campaign.
#[derive(Clone, Debug)]
pub struct GameConfig {
    pub repair: RepairConfig,
    pub ship: ShipConfig,
    pub failure_risk: FailureRiskConfig,
    pub mortality: MortalityConfig,
    pub crew: CrewConfig,
    pub real_time: RealTimeConfig,
    pub subsystems: SubsystemsConfig,
    pub voyage_drift: VoyageDriftConfig,
    pub flavor: FlavorConfig,
    pub heir_min_age: u32,
    pub heir_max_age: u32,
    pub member_max_age: u32,
    pub leader_retirement_age: u32,
    pub dilemma_chance_per_generation: i64,
    pub event_chance_base: i64,
    pub event_chance_cap: i64,
    pub low_food_threshold: i64,
    pub low_energy_threshold: i64,
    pub hull_warning_threshold: i64,
    pub life_support_warning_threshold: i64,
    /// Fraction of an approval gain felt as resentment by the favored people's rivals.
    pub rival_approval_spillover: i64,
    /// Fraction of an approval gain shared with the favored people's allies.
    pub ally_approval_spillover: i64,
    /// Stability below which influence income falls (0 for never).
    pub influence_governance_threshold: i64,
    /// The share of influence income an ungoverned ship still mints.
    pub influence_governance_floor: i64,
    /// The share of industrial output shed at an empty energy store.
    pub low_energy_production_shed: i64,
    pub provisioning: ProvisioningConfig,
    /// Food eaten per person per year, in millionths of a unit.
    pub food_per_person_per_year: i64,
    /// Stores below this count a lean year (0 for never).
    pub lean_food_threshold: i64,
    /// Stores at or above this count a fat year (0 for never).
    pub fat_food_threshold: i64,
    /// Energy at which the fabricators run (0 for never).
    pub surplus_energy_threshold: i64,
    pub fabrication_energy_cost: i64,
    pub fabrication_minerals_cost: i64,
    pub fabrication_parts_yield: i32,
    /// Food the ship can keep fresh (0 for no limit).
    pub food_carrying_capacity: i64,
    /// Share of the food above capacity that spoils each year.
    pub food_spoilage_fraction: i64,
    /// Years of hunger, plenty or stranding that count as chronic.
    pub chronic_hunger_years: u32,
    pub chronic_hunger_morale_drain: i64,
    pub sustained_plenty_morale_lift: i64,
    pub becalmed_morale_drain: i64,
    /// Spare parts the ship's upkeep takes each year.
    pub parts_upkeep_per_year: i32,
    /// Share of the year's wear that upkeep spares.
    pub maintenance_decay_relief: i64,
    pub hull_decay_per_year: i64,
    pub life_support_decay_per_year: i64,
    /// How strongly the peoples' mood moves the ship's unity each year.
    pub approval_unity_coupling: i64,
    /// Stability lost per unit of ideological spread past the threshold.
    pub ideology_spread_stability_penalty: i64,
    pub ideology_spread_threshold: i64,
    /// Years between two generations.
    pub generation_interval_years: u32,
    pub campaign_skeleton: CampaignSkeletonConfig,
    /// The head count a campaign launches with.
    pub starting_population: u32,
    /// The most log lines kept.
    pub log_limit: u32,
}

/// A quantity within the library's arithmetic range.
pub open spec fn bounded(x: int) -> bool {
    -BOUND <= x <= BOUND
}

/// A 0-1 fraction.
pub open spec fn frac(x: int) -> bool {
    0 <= x <= ONE
}

impl RepairConfig {
    /// Ceiling and gain are fractions; costs are in range.
    pub open spec fn wf(self) -> bool {
        &&& frac(self.field_ceiling as int)
        &&& frac(self.field_gain as int)
        &&& self.field_parts_cost >= 0
        &&& bounded(self.field_minerals_cost as int)
        &&& bounded(self.full_credits_cost as int)
        &&& bounded(self.full_minerals_cost as int)
    }
}

impl ShipConfig {
    /// Every rate is in range.
    pub open spec fn wf(self) -> bool {
        &&& bounded(self.credits_per_speed as int)
        &&& bounded(self.minerals_per_cargo as int)
        &&& bounded(self.fuel_regen_per_point as int)
        &&& self.fuel_regen_per_point >= 0
        &&& bounded(self.combat_dilemma_odds_per_point as int)
        &&& bounded(self.dilemma_odds_cap as int)
        &&& self.dilemma_odds_cap >= 0
        &&& frac(self.contract_progress_per_speed as int)
    }
}

impl SubsystemsConfig {
    /// Every coupling is in range.
    pub open spec fn wf(self) -> bool {
        &&& bounded(self.train_cost_credits as int)
        &&& frac(self.train_knowledge_gain as int)
        &&& frac(self.knowledge_decay_per_generation as int)
        &&& frac(self.education_transmission_per_tier as int)
        &&& frac(self.education_transmission_condition_penalty as int)
        &&& frac(self.engineering_decay_swing as int)
        &&& frac(self.tender_approval_decay_scale as int)
        &&& frac(self.agriculture_food_bonus_per_tier as int)
        &&& frac(self.agriculture_condition_food_penalty as int)
        &&& frac(self.life_support_failure_threshold as int)
        &&& frac(self.life_support_failure_mortality as int)
        &&& bounded(self.life_support_energy_critical as int)
        &&& frac(self.agriculture_life_support_contribution as int)
        &&& frac(self.medical_famine_relief_per_condition as int)
        &&& frac(self.security_unity_recovery_per_condition as int)
        &&& frac(self.security_stability_recovery_per_condition as int)
        &&& frac(self.security_stability_recovery_ceiling as int)
        &&& frac(self.habitat_morale_swing as int)
        &&& frac(self.security_crisis_mitigation as int)
        &&& frac(self.crisis_weight_floor as int)
        &&& frac(self.objective_condition_penalty as int)
    }
}

impl MortalityConfig {
    /// Chances are fractions.
    pub open spec fn wf(self) -> bool {
        &&& frac(self.monthly_accident_chance as int)
        &&& frac(self.monthly_base_chance as int)
        &&& frac(self.annual_birth_chance as int)
        &&& frac(self.event_death_chance as int)
    }
}

impl VoyageDriftConfig {
    /// Yearly drifts are fractions of a unit either way; resistances and the
    /// ideology scale are fractions; a legacy multiplier is at most tenfold.
    pub open spec fn wf(self) -> bool {
        &&& -ONE <= self.adaptation_per_year <= ONE
        &&& -ONE <= self.cultural_drift_per_year <= ONE
        &&& -ONE <= self.legacy_loyalty_per_year <= ONE
        &&& -ONE <= self.morale_strain_per_year <= ONE
        &&& -ONE <= self.unity_strain_per_year <= ONE
        &&& frac(self.dominant_ideology_scale as int)
        &&& frac(self.archive_drift_resistance as int)
        &&& frac(self.medical_adaptation_resistance as int)
        &&& frac(self.agriculture_adaptation_resistance as int)
        &&& forall|i: int|
            0 <= i < self.legacy_multipliers.len() ==> 0 <= (#[trigger] self.legacy_multipliers@[i]).1
                <= 10 * ONE
    }
}

impl RealTimeConfig {
    /// The band's half-width is a fraction.
    pub open spec fn wf(self) -> bool {
        &&& frac(self.impact_variance as int)
        &&& self.impact_min_magnitude_for_range >= 0
    }
}

impl GameConfig {
    /// Every knob is in range.
    pub open spec fn wf(self) -> bool {
        &&& self.repair.wf()
        &&& self.ship.wf()
        &&& self.subsystems.wf()
        &&& self.mortality.wf()
        &&& self.real_time.wf()
        &&& frac(self.dilemma_chance_per_generation as int)
        &&& frac(self.crew.unity_recovery_ceiling as int)
        &&& bounded(self.low_food_threshold as int)
        &&& bounded(self.low_energy_threshold as int)
        &&& bounded(self.event_chance_base as int)
        &&& bounded(self.event_chance_cap as int)
        &&& frac(self.rival_approval_spillover as int)
        &&& frac(self.ally_approval_spillover as int)
        &&& frac(self.influence_governance_threshold as int)
        &&& frac(self.influence_governance_floor as int)
        &&& frac(self.low_energy_production_shed as int)
        &&& self.voyage_drift.wf()
        &&& frac(self.provisioning.fuel_burn_per_travel_month as int)
        &&& 0 <= self.provisioning.no_fuel_decay_multiplier <= 10 * ONE
        &&& 0 <= self.food_per_person_per_year <= BOUND
        &&& bounded(self.lean_food_threshold as int)
        &&& bounded(self.fat_food_threshold as int)
        &&& bounded(self.surplus_energy_threshold as int)
        &&& 0 <= self.fabrication_energy_cost <= BOUND
        &&& 0 <= self.fabrication_minerals_cost <= BOUND
        &&& 0 <= self.fabrication_parts_yield <= 1_000_000
        &&& bounded(self.food_carrying_capacity as int)
        &&& frac(self.food_spoilage_fraction as int)
        &&& frac(self.chronic_hunger_morale_drain as int)
        &&& frac(self.sustained_plenty_morale_lift as int)
        &&& frac(self.becalmed_morale_drain as int)
        &&& self.parts_upkeep_per_year >= 0
        &&& frac(self.maintenance_decay_relief as int)
        &&& frac(self.hull_decay_per_year as int)
        &&& frac(self.life_support_decay_per_year as int)
        &&& -ONE <= self.approval_unity_coupling <= ONE
        &&& frac(self.ideology_spread_stability_penalty as int)
        &&& 0 <= self.ideology_spread_threshold <= 2 * ONE
        &&& forall|i: int|
            0 <= i < self.campaign_skeleton.depopulation_beats.len() ==> frac(
                #[trigger] self.campaign_skeleton.depopulation_beats@[i] as int,
            )
    }
}

} // verus!
