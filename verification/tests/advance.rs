#![allow(dead_code, unused_imports)]

use stellar_legacy::config::{
    CampaignSkeletonConfig, CrewConfig, FailureRiskConfig, FlavorConfig, GameConfig, MortalityConfig, ProvisioningConfig, RealTimeConfig,
    RepairConfig, ShipConfig, SubsystemBeat, SubsystemsConfig, VoyageDriftConfig,
};
use stellar_legacy::data::{
    Abandonment, AnnualToll, ApprovalCeiling, ApprovalFloor, CompletionReward, Complication, ComponentKind, ComponentStats,
    ContractObjective, ContractPhase, ContractTemplate, CrewArchetype, DilemmaDef, DilemmaEffect, DilemmaOption,
    EventCategory, EventOutcome, EventTemplate, FactionDef, FactionLossKind, Followup, GameData, KnowledgeFloor,
    LegacyDef, MetricKind, NamedDelta, OutcomeAvailability, PhaseSegment, ReputationGate, ScheduledBeat, ShipComponent,
    SubsystemDef, SubsystemDelta, SubsystemGate, SuccessMetric, TierDef,
};
use stellar_legacy::deltas::{PopulationDelta, ResourceDelta, ShipDelta};
use stellar_legacy::rolls::Rolls;
use stellar_legacy::state::{
    default_approval, CrewMember, Dynasty, DynastyMember, FactionState, FactionStatus, LegacyTrack, Market,
    MarketEntry, PendingDilemma, PendingEvent, PopulationState, ProductionRates, ReputationEntry, ResourceState, ShipState, SimState,
    SubsystemState, TradeResource,
};

use stellar_legacy::autoplay::play_mission;
use stellar_legacy::beats::{
    fire_anniversary_beat, fire_charter_scheduled_beat, fire_dead_air_beat, fire_drift_beat, fire_due_beat,
    fire_dynasty_crisis_beat, fire_hull_beat, fire_power_transition_beat, fire_recovery_beat,
    fire_reputation_beat, fire_scheduled_beat, fire_subsystem_beat, fire_succession_beat,
};
use stellar_legacy::contract::start_contract;
use stellar_legacy::economy::{
    aboard_approval_mean, aboard_ideology_spread, close_the_year, count_food_streaks, feed_the_crew,
    land_route_toll, produce, run_fabricators, spoil_stores, steady_the_ship, turn_the_generation,
    wear_the_ship, year_boundary_tick, ProductionMultipliers, ShipFactors,
};
use stellar_legacy::skeleton::generate_beats;
use stellar_legacy::state::ScheduledEvent;
use stellar_legacy::text::str_before;
use stellar_legacy::tick::{
    advance_months, advance_year, apply_pending_event, month_of_contract, trim_log, TickReport,
};

fn factors() -> ShipFactors {
    ShipFactors {
        fuel_burn_factor: ONE,
        crew_production: ProductionMultipliers { credits: ONE, energy: ONE, minerals: ONE, food: ONE, influence: ONE },
        famine_loss_reduction: 0,
        crew_unity_recovery: 0,
        fabrication_factor: ONE,
        hull_decay_factor: ONE,
        education_morale: 0,
    }
}

fn last_line(sim: &SimState) -> String {
    sim.log.last().unwrap().text.clone()
}

fn on_charter(sim: &mut SimState, data: &GameData, id: &str) {
    let t = charter_of(data, id);
    sim.contract = Some(start_contract(&t, sim));
}

// ---------------------------------------------------------------- the economic year

#[test]
fn a_quiet_year_produces_feeds_and_wears() {
    let data = data();
    let mut sim = campaign("wanderers", 11);
    let mut report = TickReport::default();
    year_boundary_tick(&mut sim, &data, &factors(), &mut report);
    assert_eq!(sim.resources.credits, 2_000 + 100 + 50);
    assert_eq!(sim.resources.energy, 500 + 80);
    assert_eq!(sim.resources.minerals, 500 + 60 + 20);
    assert_eq!(sim.resources.food, 2_000 + 1_100 - 1_000);
    assert_eq!(sim.resources.influence, 110);
    assert_eq!(sim.ship.spare_parts, 18);
    assert_eq!(sim.ship.hull_integrity, 995_000);
    assert_eq!(sim.ship.life_support, 996_000);
    assert_eq!(sim.population.morale, 700_000 + 20_000 - 1_000);
    assert_eq!(sim.population.unity, 699_000);
    assert_eq!(sim.crew[0].age, 36);
    assert_eq!(sim.dynasty.members[0].age, 46);
    assert_eq!(sim.dynasty.years_since_generation, 1);
    assert_eq!(sim.month_clock, 0);
    assert!(!report.decision_required);
}

#[test]
fn production_follows_the_crew_and_the_council() {
    let data = data();
    let mut sim = campaign("wanderers", 11);
    let mut f = factors();
    f.crew_production.food = 1_500_000;
    sim.population.stability = 200_000;
    produce(&mut sim, &data, &f);
    assert_eq!(sim.resources.food, 2_000 + 1_650);
    // Stability half the governance line: 0.3 + 0.7 x 0.5 = 0.65 of 10.
    assert_eq!(sim.resources.influence, 100 + 6);
}

#[test]
fn a_famine_takes_one_in_fifty_less_the_infirmary_share() {
    let data = data();
    let mut sim = campaign("wanderers", 11);
    sim.resources.food = 100;
    feed_the_crew(&mut sim, &data, &factors());
    assert_eq!(sim.resources.food, 0);
    assert_eq!(sim.population.count, 1_000 - 14);
    assert_eq!(sim.population.morale, 650_000);
    assert_eq!(last_line(&sim), "The rations ran out; 14 were lost to the hunger.");
}

#[test]
fn food_streaks_count_lean_and_fat_years() {
    let data = data();
    let mut sim = campaign("wanderers", 11);
    sim.resources.food = 100;
    sim.lean_food_years = 2;
    sim.fat_food_years = 4;
    count_food_streaks(&mut sim, &data.config);
    assert_eq!(sim.lean_food_years, 3);
    assert_eq!(sim.fat_food_years, 0);
    sim.resources.food = 30_000;
    count_food_streaks(&mut sim, &data.config);
    assert_eq!(sim.lean_food_years, 0);
    assert_eq!(sim.fat_food_years, 1);
}

#[test]
fn spare_power_and_ore_become_parts() {
    let data = data();
    let mut sim = campaign("wanderers", 11);
    sim.resources.energy = 1_000;
    run_fabricators(&mut sim, &data, &factors());
    assert_eq!(sim.resources.energy, 700);
    assert_eq!(sim.resources.minerals, 450);
    assert_eq!(sim.ship.spare_parts, 30);
    assert_eq!(last_line(&sim), "The fabricators turned spare power into 10 parts.");
    let before = sim.log.len();
    run_fabricators(&mut sim, &data, &factors());
    assert_eq!(sim.log.len(), before, "below the surplus line the fabricators idle");
}

#[test]
fn a_worn_bay_still_makes_one_part() {
    let data = data();
    let mut sim = campaign("wanderers", 11);
    sim.resources.energy = 1_000;
    let mut f = factors();
    f.fabrication_factor = 10_000;
    run_fabricators(&mut sim, &data, &f);
    assert_eq!(sim.ship.spare_parts, 21);
}

#[test]
fn stores_past_the_holds_spoil() {
    let data = data();
    let mut sim = campaign("wanderers", 11);
    sim.resources.food = 60_000;
    spoil_stores(&mut sim, &data);
    assert_eq!(sim.resources.food, 59_000);
    assert_eq!(last_line(&sim), "1000 tonnes of stores spoiled in the holds.");
}

#[test]
fn the_route_takes_its_toll() {
    let mut data = data();
    data.contracts[0].annual_toll.resource.food = -300;
    data.contracts[0].annual_toll.ship.hull_integrity = -50_000;
    let mut sim = campaign("wanderers", 11);
    on_charter(&mut sim, &data, "deep_vein_survey");
    land_route_toll(&mut sim, &data);
    assert_eq!(sim.resources.food, 1_700);
    assert_eq!(sim.ship.hull_integrity, 950_000);
}

#[test]
fn the_peoples_mood_is_weighted_by_head_count() {
    let mut sim = campaign("wanderers", 11);
    assert_eq!(aboard_approval_mean(&sim), 500_000);
    sim.factions[0].approval = 900_000;
    // (400 x 0.9 + 350 x 0.5 + 250 x 0.5) / 1000
    assert_eq!(aboard_approval_mean(&sim), 660_000);
}

#[test]
fn the_ideological_span_of_those_aboard() {
    let data = data();
    let mut sim = campaign("wanderers", 11);
    assert_eq!(aboard_ideology_spread(&sim, &data), 300_000);
    sim.factions.push(faction("ascension_circle", 50));
    assert_eq!(aboard_ideology_spread(&sim, &data), 1_000_000);
}

#[test]
fn a_divided_ship_loses_stability_and_content_peoples_lift_unity() {
    let data = data();
    let mut sim = campaign("wanderers", 11);
    sim.factions.push(faction("ascension_circle", 50));
    sim.factions.push(faction("first_flame", 50));
    sim.factions[0].approval = 900_000;
    steady_the_ship(&mut sim, &data, &factors());
    // Spread 1.4 against a line of 1.0: 0.05 x 0.4 off stability.
    assert_eq!(sim.population.stability, 680_000);
    assert!(sim.population.unity > 700_000);
}

#[test]
fn a_stalled_year_is_logged_and_counted() {
    let data = data();
    let mut sim = campaign("wanderers", 11);
    sim.fuel_stalled_this_year = true;
    let wear = wear_the_ship(&mut sim, &data, &factors());
    assert_eq!(wear, 500_000);
    assert_eq!(sim.ship.hull_integrity, 990_000);
    assert_eq!(sim.fuel_stall_years, 1);
    assert!(!sim.fuel_stalled_this_year);
    assert_eq!(last_line(&sim), "The tanks ran dry; the ship coasted in the cold.");
}

#[test]
fn a_generation_turns_on_its_interval() {
    let data = data();
    let mut sim = campaign("wanderers", 11);
    sim.dynasty.years_since_generation = 24;
    sim.dynasty.births_this_generation = 2;
    let mut report = TickReport::default();
    turn_the_generation(&mut sim, &data, &mut report);
    assert_eq!(sim.dynasty.generation, 2);
    assert_eq!(sim.dynasty.years_since_generation, 0);
    assert_eq!(sim.dynasty.births_this_generation, 0);
    assert_eq!(sim.log[0].text, "Generation 2 comes of age: 2 new hands.");
}

#[test]
fn a_quiet_stretch_reads_in_the_ruling_peoples_voice() {
    let data = data();
    let mut sim = campaign("wanderers", 11);
    sim.month_clock = 48;
    sim.year = 4;
    close_the_year(&mut sim, &data);
    assert_eq!(last_line(&sim), "the Hearth Union keep the rhythm of the decks.");
}

#[test]
fn the_fuel_gathered_is_reported() {
    let data = data();
    let mut sim = campaign("wanderers", 11);
    sim.year = 5;
    sim.month_clock = 60;
    sim.last_event_month_clock = 59;
    sim.fuel_scooped_accum = 120_000;
    close_the_year(&mut sim, &data);
    assert_eq!(last_line(&sim), "The scoop gathered 12 measures of fuel.");
    assert_eq!(sim.fuel_scooped_accum, 0);
}

// ---------------------------------------------------------------- a month of the charter

#[test]
fn the_first_month_under_way_burns_fuel_and_turns_the_phase() {
    let data = data();
    let mut sim = campaign("wanderers", 11);
    on_charter(&mut sim, &data, "deep_vein_survey");
    let mut report = TickReport::default();
    month_of_contract(&mut sim, &data, &factors(), &mut report);
    assert_eq!(sim.ship.fuel, ONE - 2_000);
    assert_eq!(sim.contract.as_ref().unwrap().months_elapsed, 1);
    assert_eq!(report.phase_changed, Some(ContractPhase::Travel));
    assert_eq!(last_line(&sim), "The engines light for the long crossing.");
}

#[test]
fn a_dry_tank_coasts() {
    let data = data();
    let mut sim = campaign("wanderers", 11);
    on_charter(&mut sim, &data, "deep_vein_survey");
    sim.ship.fuel = 1_000;
    let mut report = TickReport::default();
    month_of_contract(&mut sim, &data, &factors(), &mut report);
    assert_eq!(sim.ship.fuel, 0);
    assert_eq!(sim.stalled_months, 1);
    assert!(sim.fuel_stalled_this_year);
    assert_eq!(sim.contract.as_ref().unwrap().months_elapsed, 0);
    assert_eq!(report.phase_changed, None);
}

// ---------------------------------------------------------------- the advance

#[test]
fn an_advance_stops_at_a_phase_change() {
    let data = data();
    let mut sim = campaign("wanderers", 11);
    on_charter(&mut sim, &data, "deep_vein_survey");
    let report = advance_months(&mut sim, &data, &factors(), 12);
    assert_eq!(report.months_advanced, 1);
    assert_eq!(report.phase_changed, Some(ContractPhase::Travel));
    assert_eq!(sim.month_clock, 1);
}

#[test]
fn a_quiet_year_runs_to_its_end() {
    let data = data();
    let mut sim = campaign("wanderers", 11);
    let report = advance_year(&mut sim, &data, &factors());
    assert!(report.months_advanced >= 1);
    if report.months_advanced == 12 {
        assert_eq!(sim.month_clock, 12);
        assert_eq!(sim.year, 1);
        assert_eq!(sim.dynasty.years_since_generation, 1);
    } else {
        assert!(report.dynasty_extinct || report.decision_required);
    }
}

#[test]
fn a_council_event_waits_on_the_council() {
    let mut data = data();
    let mut e = event("the_quiet_vote", "diplomacy");
    e.requires_decision = true;
    data.events.push(e);
    let mut sim = campaign("wanderers", 11);
    let mut report = TickReport::default();
    apply_pending_event(
        &mut sim,
        &data,
        PendingEvent { template_id: "the_quiet_vote".to_string(), rolled_month_clock: 0 },
        &mut report,
    );
    assert!(report.decision_required);
    assert_eq!(sim.pending_event.as_ref().unwrap().template_id, "the_quiet_vote");
    assert_eq!(last_line(&sim), "The council gathers: the quiet vote.");
}

#[test]
fn a_delegated_event_is_settled_by_the_advisors() {
    let mut data = data();
    let mut e = event("the_quiet_vote", "diplomacy");
    e.requires_decision = true;
    data.events.push(e);
    let mut sim = campaign("wanderers", 11);
    sim.delegation.push(EventCategory::GenerationalChallenge);
    let mut report = TickReport::default();
    apply_pending_event(
        &mut sim,
        &data,
        PendingEvent { template_id: "the_quiet_vote".to_string(), rolled_month_clock: 0 },
        &mut report,
    );
    assert!(!report.decision_required);
    assert!(sim.pending_event.is_none());
    assert_eq!(last_line(&sim), "Delegated advisor resolved 'the quiet vote' with: carry on");
}

#[test]
fn the_log_keeps_its_newest_lines() {
    let mut sim = campaign("wanderers", 11);
    for k in 0..5 {
        sim.log.push(stellar_legacy::state::LogEntry { month_clock: k, text: format!("line {k}") });
    }
    trim_log(&mut sim, 3);
    assert_eq!(sim.log.len(), 3);
    assert_eq!(sim.log[0].text, "line 2");
}

#[test]
fn a_mission_flown_by_policy_ends_on_its_clock() {
    let data = data();
    let mut sim = campaign("preservers", 2024);
    let outcome = play_mission(&mut sim, &data, &factors(), "deep_vein_survey", 5);
    assert!(!outcome.completed);
    assert_eq!(outcome.final_score, 0);
    assert_eq!(outcome.final_year, sim.year);
    assert!(sim.contract.is_some() || outcome.extinct);
    assert!(sim.year <= 5, "at most five years are flown");
    assert!(sim.month_clock <= 60);
    if !outcome.extinct {
        assert!(sim.contract.as_ref().unwrap().months_elapsed > 0, "the charter is started and flown");
    }
}

#[test]
fn a_mission_that_starts_extinct_flies_no_year() {
    let data = data();
    let mut sim = campaign("preservers", 2024);
    sim.dynasty.extinct = true;
    sim.dynasty.members.clear();
    let outcome = play_mission(&mut sim, &data, &factors(), "deep_vein_survey", 5);
    assert!(outcome.extinct && !outcome.completed);
    assert_eq!(sim.month_clock, 0);
    assert_eq!(sim.contract.as_ref().unwrap().months_elapsed, 0);
}

// ---------------------------------------------------------------- beats

#[test]
fn cultural_drift_reaching_a_rung_forces_a_beat() {
    let data = data();
    let mut sim = campaign("wanderers", 11);
    let mut report = TickReport::default();
    sim.population.cultural_drift = 350_000;
    assert!(!fire_drift_beat(&mut sim, &data, &mut report), "no beat without a voyage");
    on_charter(&mut sim, &data, "deep_vein_survey");
    assert!(fire_drift_beat(&mut sim, &data, &mut report));
    assert_eq!(sim.contract.as_ref().unwrap().drift_beats_fired, 1);
    assert!(!fire_drift_beat(&mut sim, &data, &mut report), "the next rung is higher");
}

#[test]
fn the_hull_beat_fires_once_per_crossing() {
    let data = data();
    let mut sim = campaign("wanderers", 11);
    on_charter(&mut sim, &data, "deep_vein_survey");
    let mut report = TickReport::default();
    sim.ship.hull_integrity = 200_000;
    assert!(fire_hull_beat(&mut sim, &data, &mut report));
    assert_eq!(sim.hull_beat_band, -1);
    assert!(!fire_hull_beat(&mut sim, &data, &mut report));
    sim.ship.hull_integrity = 500_000;
    assert!(!fire_hull_beat(&mut sim, &data, &mut report));
    assert_eq!(sim.hull_beat_band, 0);
    sim.ship.hull_integrity = 250_000;
    assert!(fire_hull_beat(&mut sim, &data, &mut report));
}

#[test]
fn a_famed_name_forces_a_beat_and_the_middle_rearms() {
    let data = data();
    let mut sim = campaign("wanderers", 11);
    on_charter(&mut sim, &data, "deep_vein_survey");
    let mut report = TickReport::default();
    set_reputation(&mut sim, "mercy", 900_000);
    assert!(fire_reputation_beat(&mut sim, &data, &mut report));
    assert_eq!(sim.reputation_beat_band, 1);
    set_reputation(&mut sim, "mercy", 500_000);
    assert!(!fire_reputation_beat(&mut sim, &data, &mut report));
    assert_eq!(sim.reputation_beat_band, 0);
}

#[test]
fn a_collapsed_module_forces_its_beat_once() {
    let data = data();
    let mut sim = campaign("wanderers", 11);
    on_charter(&mut sim, &data, "deep_vein_survey");
    let mut report = TickReport::default();
    module_mut(&mut sim, "life_support_habitat").condition = 100_000;
    assert!(fire_subsystem_beat(&mut sim, &data, &mut report));
    assert_eq!(sim.subsystem_beats_fired, vec!["life_support_habitat".to_string()]);
    assert!(!fire_subsystem_beat(&mut sim, &data, &mut report));
}

#[test]
fn recovery_rearms_the_crisis_ladder() {
    let data = data();
    let mut sim = campaign("wanderers", 11);
    on_charter(&mut sim, &data, "deep_vein_survey");
    sim.contract.as_mut().unwrap().crisis_beats_fired = 2;
    let mut report = TickReport::default();
    assert!(fire_recovery_beat(&mut sim, &data, &mut report));
    assert_eq!(sim.contract.as_ref().unwrap().crisis_beats_fired, 0);
}

#[test]
fn a_new_clear_majority_is_marked_then_reckoned_with() {
    let data = data();
    let mut sim = campaign("wanderers", 11);
    on_charter(&mut sim, &data, "deep_vein_survey");
    let mut report = TickReport::default();
    assert!(!fire_power_transition_beat(&mut sim, &data, &mut report));
    assert_eq!(sim.last_dominant_faction, "hearth_union");
    sim.factions[1].members = 600;
    assert!(fire_power_transition_beat(&mut sim, &data, &mut report));
    assert_eq!(sim.last_dominant_faction, "verdant_kin");
}

#[test]
fn a_dwindled_line_is_marked_once() {
    let data = data();
    let mut sim = campaign("wanderers", 11);
    on_charter(&mut sim, &data, "deep_vein_survey");
    let mut report = TickReport::default();
    assert!(!fire_dynasty_crisis_beat(&mut sim, &data, &mut report));
    sim.dynasty.members.truncate(2);
    assert!(fire_dynasty_crisis_beat(&mut sim, &data, &mut report));
    assert!(sim.dynasty.dynasty_crisis_marked);
    assert!(!fire_dynasty_crisis_beat(&mut sim, &data, &mut report));
}

#[test]
fn the_anniversary_and_the_dead_air() {
    let data = data();
    let mut sim = campaign("wanderers", 11);
    on_charter(&mut sim, &data, "deep_vein_survey");
    let mut report = TickReport::default();
    sim.month_clock = 600;
    assert!(fire_anniversary_beat(&mut sim, &data, &mut report));
    assert_eq!(sim.contract.as_ref().unwrap().anniversaries_fired, 1);
    assert!(!fire_anniversary_beat(&mut sim, &data, &mut report));
    assert!(fire_dead_air_beat(&mut sim, &data, &mut report));
    assert_eq!(sim.last_event_month_clock, 600);
    assert!(!fire_dead_air_beat(&mut sim, &data, &mut report));
}

#[test]
fn a_leader_lost_in_office_forces_the_succession_beat() {
    let data = data();
    let mut sim = campaign("wanderers", 11);
    on_charter(&mut sim, &data, "deep_vein_survey");
    let mut report = TickReport::default();
    report.leader_died = true;
    assert!(fire_succession_beat(&mut sim, &data, &mut report));
    assert!(!report.leader_died);
}

#[test]
fn the_earliest_followup_fires_first_ties_by_id() {
    let data = data();
    let mut sim = campaign("wanderers", 11);
    sim.year = 6;
    sim.month_clock = 72;
    sim.scheduled_events = vec![
        ScheduledEvent { template_id: "beta".to_string(), fire_year: 5 },
        ScheduledEvent { template_id: "alpha".to_string(), fire_year: 5 },
        ScheduledEvent { template_id: "gamma".to_string(), fire_year: 9 },
    ];
    let mut report = TickReport::default();
    assert!(fire_scheduled_beat(&mut sim, &data, &mut report));
    let left: Vec<&str> = sim.scheduled_events.iter().map(|e| e.template_id.as_str()).collect();
    assert_eq!(left, vec!["beta", "gamma"]);
    assert_eq!(sim.last_event_month_clock, 72);
    assert!(fire_scheduled_beat(&mut sim, &data, &mut report));
    assert!(!fire_scheduled_beat(&mut sim, &data, &mut report));
}

#[test]
fn a_charters_scripted_beat_fires_on_its_year() {
    let mut data = data();
    data.contracts[0].scheduled_beats = vec![ScheduledBeat { at_year: 2, template_id: "the_reckoning".to_string() }];
    let mut sim = campaign("wanderers", 11);
    on_charter(&mut sim, &data, "deep_vein_survey");
    let mut report = TickReport::default();
    assert!(!fire_charter_scheduled_beat(&mut sim, &data, &mut report));
    sim.contract.as_mut().unwrap().months_elapsed = 24;
    assert!(fire_charter_scheduled_beat(&mut sim, &data, &mut report));
    assert_eq!(sim.contract.as_ref().unwrap().scheduled_beats_fired, 1);
    assert!(!fire_charter_scheduled_beat(&mut sim, &data, &mut report));
}

#[test]
fn a_campaign_beat_fires_when_its_month_comes() {
    let data = data();
    let mut sim = campaign("wanderers", 11);
    on_charter(&mut sim, &data, "deep_vein_survey");
    let beats = {
        let c = sim.contract.as_ref().unwrap().clone();
        generate_beats(&mut sim.rolls, &c)
    };
    let first = beats[0].month_clock;
    sim.contract.as_mut().unwrap().beats = beats;
    let mut report = TickReport::default();
    sim.month_clock = first - 1;
    assert!(!fire_due_beat(&mut sim, &data, &mut report));
    sim.month_clock = first;
    assert!(fire_due_beat(&mut sim, &data, &mut report));
    assert!(sim.contract.as_ref().unwrap().beats[0].fired);
}

#[test]
fn ids_sort_as_text_does() {
    assert!(str_before("alpha", "beta"));
    assert!(!str_before("beta", "alpha"));
    assert!(str_before("alp", "alpha"));
    assert!(!str_before("alpha", "alpha"));
}


// ---------------------------------------------------------------- event builders

fn event(id: &str, family: &str) -> EventTemplate {
    EventTemplate {
        id: id.to_string(),
        title: id.replace('_', " "),
        description: format!("The {} unfolds.", id.replace('_', " ")),
        category: EventCategory::GenerationalChallenge,
        family: family.to_string(),
        outcomes: vec![choice("carry_on")],
        complications: vec![],
        legacy_weight_modifiers: vec![],
        scheduled_only: false,
        phases: vec![],
        requires_consequence: vec![],
        forbidden_consequence: vec![],
        requires_charter_tag: vec![],
        requires_dominant_faction: String::new(),
        requires_factions_aboard: vec![],
        faction_approval_below: vec![],
        faction_approval_above: vec![],
        knowledge_below: vec![],
        condition_below: vec![],
        food_below: None,
        fuel_below: None,
        spare_parts_below: None,
        energy_below: None,
        food_above: None,
        credits_above: None,
        max_year: 0,
        max_generation: 0,
        min_objective_fraction: 0,
        max_population: 0,
        max_dynasty_size: 0,
        hull_below: None,
        life_support_below: None,
        min_lean_food_years: 0,
        min_fat_food_years: 0,
        max_legacy_loyalty: 0,
        max_stability: 0,
        min_reputation: vec![],
        max_reputation: vec![],
        min_year: 0,
        min_generation: 0,
        min_cultural_drift: 0,
        min_morale: 0,
        min_unity: 0,
        requires_decision: false,
    }
}

fn open_to_all() -> OutcomeAvailability {
    OutcomeAvailability {
        requires_consequence: vec![],
        min_knowledge: vec![],
        min_reputation: vec![],
        max_reputation: vec![],
        requires_dominant_faction: String::new(),
    }
}

fn choice(id: &str) -> EventOutcome {
    EventOutcome {
        id: id.to_string(),
        label: id.replace('_', " "),
        log: String::new(),
        resource_delta: no_resources(),
        ship_delta: no_ship(),
        population_delta: no_people(),
        long_term_consequences: vec![],
        reputation_deltas: vec![],
        schedule_followup: None,
        grant_component: None,
        force_return: false,
        faction_loss: None,
        faction_loss_id: None,
        faction_merge_id: None,
        subsystem_deltas: vec![],
        faction_approval_deltas: vec![],
        faction_approval_smallest: 0,
        objective_progress_delta: 0,
        availability: open_to_all(),
    }
}

fn twist(id: &str) -> Complication {
    Complication {
        id: id.to_string(),
        description_add: format!("And worse: {}.", id.replace('_', " ")),
        log: String::new(),
        min_cultural_drift: 0,
        condition_below: vec![],
        requires_consequence: vec![],
        food_below: None,
        requires_dominant_faction: String::new(),
        requires_factions_aboard: vec![],
        min_prior_occurrences: 0,
        max_population: 0,
        min_lean_food_years: 0,
        min_fat_food_years: 0,
        min_reputation: vec![],
        max_reputation: vec![],
        applies_to_outcomes: vec![],
        resource_delta: no_resources(),
        ship_delta: no_ship(),
        population_delta: no_people(),
        subsystem_deltas: vec![],
    }
}

fn followup(id: &str, delay_years: u32) -> Option<Followup> {
    Some(Followup { template_id: id.to_string(), delay_years })
}

fn position(e: &EventTemplate, id: &str) -> usize {
    e.outcomes.iter().position(|o| o.id == id).unwrap()
}

fn module_gate(id: &str, below: i64) -> SubsystemGate {
    SubsystemGate { id: id.to_string(), below }
}

// ---------------------------------------------------------------- fixture

const ONE: i64 = 1_000_000;

fn strs(xs: &[&str]) -> Vec<String> {
    xs.iter().map(|s| s.to_string()).collect()
}

fn tape(seed: u64) -> Rolls {
    let mut x = seed.wrapping_mul(0x9E37_79B9_7F4A_7C15).wrapping_add(0x632B_E59B_D9B4_E019);
    let mut values = Vec::new();
    for _ in 0..4096 {
        x ^= x << 13;
        x ^= x >> 7;
        x ^= x << 17;
        values.push(x);
    }
    Rolls::new(values)
}

fn no_resources() -> ResourceDelta {
    ResourceDelta::zero()
}

fn no_ship() -> ShipDelta {
    ShipDelta::zero()
}

fn no_people() -> PopulationDelta {
    PopulationDelta::zero()
}

fn config() -> GameConfig {
    GameConfig {
        repair: RepairConfig {
            field_ceiling: 800_000,
            field_gain: 100_000,
            field_parts_cost: 5,
            field_minerals_cost: 20,
            full_credits_cost: 500,
            full_minerals_cost: 200,
            full_parts_restock: 50,
        },
        ship: ShipConfig {
            credits_per_speed: 25,
            minerals_per_cargo: 100_000,
            fuel_regen_per_point: 10_000,
            combat_dilemma_odds_per_point: 20_000,
            dilemma_odds_cap: 950_000,
            contract_progress_per_speed: 100_000,
        },
        failure_risk: FailureRiskConfig {
            drift_threshold: 700_000,
            drift_points: 30,
            unity_threshold: 300_000,
            unity_points: 25,
            tradition_threshold: 20,
            tradition_points: 35,
            body_horror_threshold: 5,
            body_horror_points: 30,
            dread_threshold: 700_000,
            dread_points: 30,
            piracy_threshold: 700_000,
            piracy_points: 30,
            at_risk_threshold: 60,
        },
        mortality: MortalityConfig {
            monthly_accident_chance: 100,
            monthly_base_chance: 200,
            onset_age: 50,
            doubling_years: 8,
            dynasty_target_size: 6,
            annual_birth_chance: 300_000,
            event_death_loss_threshold: 50,
            event_death_chance: 250_000,
        },
        crew: CrewConfig { retirement_age: 65, unity_recovery_ceiling: 700_000 },
        real_time: RealTimeConfig { impact_variance: 400_000, impact_min_magnitude_for_range: 20 },
        subsystems: SubsystemsConfig {
            train_cost_credits: 100,
            train_knowledge_gain: 200_000,
            knowledge_decay_per_generation: 150_000,
            education_transmission_per_tier: 50_000,
            education_transmission_condition_penalty: 500_000,
            engineering_decay_swing: 500_000,
            tender_approval_decay_scale: 400_000,
            agriculture_food_bonus_per_tier: 100_000,
            agriculture_condition_food_penalty: 500_000,
            life_support_failure_threshold: 500_000,
            life_support_failure_mortality: 100_000,
            life_support_energy_critical: 50,
            agriculture_life_support_contribution: 200_000,
            medical_famine_relief_per_condition: 300_000,
            security_unity_recovery_per_condition: 20_000,
            security_stability_recovery_per_condition: 20_000,
            security_stability_recovery_ceiling: 700_000,
            habitat_morale_swing: 40_000,
            security_crisis_mitigation: 200_000,
            crisis_weight_floor: 100_000,
            objective_condition_penalty: 500_000,
        },
        voyage_drift: VoyageDriftConfig {
            adaptation_per_year: 5_000,
            cultural_drift_per_year: 4_000,
            legacy_loyalty_per_year: -3_000,
            morale_strain_per_year: -1_000,
            unity_strain_per_year: -1_000,
            legacy_multipliers: vec![
                ("adaptors".to_string(), 1_500_000),
                ("preservers".to_string(), 500_000),
                ("wanderers".to_string(), 1_000_000),
            ],
            dominant_ideology_scale: 300_000,
            archive_drift_resistance: 500_000,
            medical_adaptation_resistance: 400_000,
            agriculture_adaptation_resistance: 300_000,
        },
        flavor: FlavorConfig {
            retirement: strs(&["{name} hands the watch to younger hands."]),
            obituary: strs(&["{name} is laid to rest among the stars."]),
            crew_death: strs(&["The {post}, {name}, is gone."]),
            succession: strs(&["{name} takes the chair."]),
            extinction: strs(&["The line of {name} has ended."]),
            subsystem_repair: strs(&[
                "Welders crawl the {name} until it hums again.",
                "The {name} is coaxed back into service.",
            ]),
            subsystem_training: strs(&["A new cohort learns the {name}."]),
            phase_lines: vec![
                ("travel".to_string(), strs(&["The engines light for the long crossing.", "Underway again, the stars wheel past."])),
                ("operation".to_string(), strs(&["The work begins on station."])),
            ],
            ambient: strs(&["A quiet year aboard."]),
            ambient_lean: strs(&["Another lean year; the ration lines grow quiet."]),
            ambient_lean_years_threshold: 3,
            ambient_hollow: strs(&["The corridors echo, half-empty."]),
            ambient_population_threshold: 200,
            ambient_drifted: strs(&["The old words sound strange to the young."]),
            ambient_drift_threshold: 600_000,
            ambient_fat: strs(&["The galleys overflow; no one remembers hunger."]),
            ambient_fat_years_threshold: 5,
            ambient_gap_years: 4,
            famine: strs(&["The rations ran out; {losses} were lost to the hunger."]),
            fabrication: strs(&["The fabricators turned spare power into {parts} parts."]),
            food_spoilage: strs(&["{spoiled} tonnes of stores spoiled in the holds."]),
            life_support_loss: strs(&["The thin air took {losses}."]),
            fuel_stall: strs(&["The tanks ran dry; the ship coasted in the cold."]),
            coming_of_age: strs(&["Generation {generation} comes of age: {births} new hands."]),
            fuel_report_gap_years: 5,
            fuel_gain: strs(&["The scoop gathered {amount} measures of fuel."]),
            milestone: strs(&["A milestone: {milestone}."]),
            council_summons: strs(&["The council gathers: {title}."]),
        },
        heir_min_age: 18,
        heir_max_age: 60,
        member_max_age: 100,
        leader_retirement_age: 70,
        dilemma_chance_per_generation: 500_000,
        event_chance_base: 200_000,
        event_chance_cap: 800_000,
        low_food_threshold: 200,
        low_energy_threshold: 100,
        hull_warning_threshold: 400_000,
        life_support_warning_threshold: 400_000,
        rival_approval_spillover: 250_000,
        ally_approval_spillover: 250_000,
        influence_governance_threshold: 400_000,
        influence_governance_floor: 300_000,
        low_energy_production_shed: 500_000,
        provisioning: ProvisioningConfig { fuel_burn_per_travel_month: 2_000, no_fuel_decay_multiplier: 2 * ONE },
        food_per_person_per_year: 1_000_000,
        lean_food_threshold: 500,
        fat_food_threshold: 20_000,
        surplus_energy_threshold: 800,
        fabrication_energy_cost: 300,
        fabrication_minerals_cost: 50,
        fabrication_parts_yield: 10,
        food_carrying_capacity: 50_000,
        food_spoilage_fraction: 100_000,
        chronic_hunger_years: 3,
        chronic_hunger_morale_drain: 20_000,
        sustained_plenty_morale_lift: 10_000,
        becalmed_morale_drain: 30_000,
        parts_upkeep_per_year: 2,
        maintenance_decay_relief: 500_000,
        hull_decay_per_year: 10_000,
        life_support_decay_per_year: 8_000,
        approval_unity_coupling: 100_000,
        ideology_spread_stability_penalty: 50_000,
        ideology_spread_threshold: 1_000_000,
        generation_interval_years: 25,
        campaign_skeleton: CampaignSkeletonConfig {
            drift_beats: vec![300_000, 600_000],
            drift_beat_family: "legacy_drift".to_string(),
            adaptation_beats: vec![400_000],
            adaptation_beat_family: "biology_medical".to_string(),
            crisis_beats: vec![400_000, 200_000],
            crisis_beat_family: "diplomacy".to_string(),
            loyalty_beats: vec![400_000],
            loyalty_beat_family: "ethics".to_string(),
            stability_beats: vec![400_000],
            stability_beat_family: "diplomacy".to_string(),
            subsystem_beats: vec![SubsystemBeat {
                subsystem: "life_support_habitat".to_string(),
                threshold: 300_000,
                family: "survival".to_string(),
            }],
            hull_beat_family: "engineering".to_string(),
            hull_beat_threshold: 300_000,
            reputation_beat_trait: "mercy".to_string(),
            reputation_beat_family: "ethics".to_string(),
            reputation_beat_high: 800_000,
            reputation_beat_low: 200_000,
            recovery_beat_family: "diplomacy".to_string(),
            recovery_beat_threshold: 600_000,
            flourish_beats: vec![850_000],
            flourish_beat_family: "survival".to_string(),
            depopulation_beats: vec![700_000, 400_000],
            depopulation_beat_family: "survival".to_string(),
            objective_beats: vec![500_000],
            objective_beat_family: "exploration_first_contact".to_string(),
            homecoming_beat_family: "legacy_drift".to_string(),
            midvoyage_beat_family: "legacy_drift".to_string(),
            founding_beat_family: "legacy_drift".to_string(),
            founding_beat_year: 80,
            power_transition_beat_family: "diplomacy".to_string(),
            anniversary_years: 50,
            anniversary_beat_family: "legacy_drift".to_string(),
            succession_beat_family: "ethics".to_string(),
            long_reign_years: 30,
            long_reign_beat_family: "ethics".to_string(),
            dynasty_crisis_size: 2,
            dynasty_crisis_beat_family: "ethics".to_string(),
            dead_air_years: 10,
            dead_air_pool: strs(&["survival", "engineering"]),
        },
        starting_population: 1_000,
        log_limit: 500,
    }
}

fn tier(severity_reduction: i64, weight_multiplier: i64, credits: i64, flavor: &str) -> TierDef {
    TierDef {
        severity_reduction,
        weight_multiplier,
        cost: ResourceDelta { credits: -credits, energy: 0, minerals: -credits / 2, food: 0, influence: 0 },
        flavor: flavor.to_string(),
    }
}

fn module(id: &str, name: &str, buffers: &str) -> SubsystemDef {
    SubsystemDef {
        id: id.to_string(),
        name: name.to_string(),
        buffers_family: buffers.to_string(),
        tiers: vec![
            tier(200_000, 800_000, 1_000, &format!("The {} is rebuilt to a sturdier pattern.", name)),
            tier(400_000, 600_000, 2_000, &format!("The {} is refitted with salvaged alloys.", name)),
            tier(600_000, 400_000, 4_000, &format!("The {} reaches its finest form.", name)),
        ],
        repair_knowledge_required: 500_000,
        repair_minerals_cost: 50,
        repair_parts_cost: 5,
        decay_per_year: 20_000,
    }
}

fn people(id: &str, name: &str, ideology: i64, tends: &str, rivals: &[&str], allies: &[&str]) -> FactionDef {
    FactionDef {
        id: id.to_string(),
        name: name.to_string(),
        ideology,
        tends: tends.to_string(),
        ambient: strs(&[&format!("{} keep the rhythm of the decks.", name)]),
        rivals: strs(rivals),
        allies: strs(allies),
    }
}

fn effect(log: &str) -> DilemmaEffect {
    DilemmaEffect {
        resource_delta: no_resources(),
        ship_delta: no_ship(),
        population_delta: no_people(),
        tradition_points: 0,
        body_horror_events: 0,
        existential_dread: 0,
        piracy_reputation: 0,
        log: log.to_string(),
    }
}

fn legacies() -> Vec<LegacyDef> {
    let mut protect_ok = effect("The archive is sealed and kept.");
    protect_ok.tradition_points = 10;
    let mut protect_bad = effect("The purge takes the stacks anyway.");
    protect_bad.resource_delta.food = -50;
    protect_bad.population_delta.morale = -50_000;
    let mut clinic_ok = effect("The clinic's grafts take.");
    clinic_ok.body_horror_events = 1;
    clinic_ok.population_delta.adaptation = 50_000;
    let mut clinic_bad = effect("The grafts reject.");
    clinic_bad.body_horror_events = 2;
    let raid = effect("The raid succeeds.");
    vec![
        LegacyDef {
            id: "preservers".to_string(),
            name: "Preservers".to_string(),
            dilemmas: vec![DilemmaDef {
                id: "archive_purge".to_string(),
                title: "The Archive Purge".to_string(),
                options: vec![DilemmaOption {
                    id: "protect".to_string(),
                    label: "Protect the archive".to_string(),
                    success_chance: 600_000,
                    success: protect_ok,
                    failure: protect_bad,
                    dominant_faction: String::new(),
                    dominant_faction_odds: 0,
                }],
            }],
        },
        LegacyDef {
            id: "adaptors".to_string(),
            name: "Adaptors".to_string(),
            dilemmas: vec![DilemmaDef {
                id: "gene_clinic".to_string(),
                title: "The Gene Clinic".to_string(),
                options: vec![DilemmaOption {
                    id: "open".to_string(),
                    label: "Open the clinic".to_string(),
                    success_chance: 650_000,
                    success: clinic_ok,
                    failure: clinic_bad,
                    dominant_faction: String::new(),
                    dominant_faction_odds: 0,
                }],
            }],
        },
        LegacyDef {
            id: "wanderers".to_string(),
            name: "Wanderers".to_string(),
            dilemmas: vec![DilemmaDef {
                id: "the_raid".to_string(),
                title: "The Raid".to_string(),
                options: vec![DilemmaOption {
                    id: "strike".to_string(),
                    label: "Strike the convoy".to_string(),
                    success_chance: 650_000,
                    success: raid.clone(),
                    failure: raid,
                    dominant_faction: String::new(),
                    dominant_faction_odds: 0,
                }],
            }],
        },
    ]
}

fn segment(kind: ContractPhase, years: u32) -> PhaseSegment {
    PhaseSegment { kind, years }
}

fn charter(id: &str, name: &str) -> ContractTemplate {
    ContractTemplate {
        id: id.to_string(),
        name: name.to_string(),
        objective: ContractObjective::Mining,
        target_duration_years: 340,
        phases: vec![
            segment(ContractPhase::Travel, 20),
            segment(ContractPhase::Operation, 300),
            segment(ContractPhase::Return, 20),
        ],
        success_metrics: vec![SuccessMetric {
            id: "done".to_string(),
            kind: MetricKind::MissionCompletion,
            name: "Mission".to_string(),
            weight: ONE,
            target: ONE,
        }],
        milestones: vec![],
        objective_target: 1_000,
        objective_unit: "tonnes".to_string(),
        tags: vec![],
        hazard: 0,
        objective_subsystem: String::new(),
        reward: ResourceDelta { credits: 5_000, energy: 0, minerals: 0, food: 0, influence: 0 },
        requires_faction_aboard: vec![],
        requires_consequence: vec![],
        forbidden_consequence: vec![],
        min_reputation: vec![],
        max_reputation: vec![],
        completion_reward: CompletionReward {
            resource: no_resources(),
            population: no_people(),
            subsystem_deltas: vec![],
            reputation_deltas: vec![],
            faction_approval_deltas: vec![],
            log: String::new(),
        },
        abandonment: Abandonment { reputation_deltas: vec![], log: String::new() },
        completion_consequence: String::new(),
        annual_toll: AnnualToll { resource: no_resources(), ship: no_ship(), population: no_people() },
        scheduled_beats: vec![],
    }
}

fn named(id: &str, delta: i64) -> NamedDelta {
    NamedDelta { id: id.to_string(), delta }
}

fn rep_gate(id: &str, threshold: i64) -> ReputationGate {
    ReputationGate { id: id.to_string(), threshold }
}

fn charters() -> Vec<ContractTemplate> {
    let mut survey = charter("deep_vein_survey", "Deep Vein Survey");
    survey.completion_consequence = "proved_the_veins".to_string();
    let mut sanctuary = charter("the_sanctuary_run", "The Sanctuary Run");
    sanctuary.min_reputation = vec![rep_gate("mercy", 700_000)];
    sanctuary.completion_reward.reputation_deltas = vec![named("mercy", 100_000)];
    sanctuary.completion_reward.faction_approval_deltas = vec![named("hearth_union", 150_000)];
    sanctuary.completion_reward.log = "The refugees step onto a new world.".to_string();
    sanctuary.abandonment = Abandonment {
        reputation_deltas: vec![named("mercy", -100_000), named("resolve", -100_000)],
        log: "The refugees are left behind.".to_string(),
    };
    let mut hard = charter("the_hard_contract", "The Hard Contract");
    hard.max_reputation = vec![rep_gate("mercy", 300_000)];
    hard.completion_reward.reputation_deltas = vec![named("mercy", -100_000)];
    hard.completion_reward.log = "The writ is enforced.".to_string();
    hard.abandonment = Abandonment {
        reputation_deltas: vec![named("mercy", 100_000), named("resolve", -100_000)],
        log: "The ship will not finish the cruel job.".to_string(),
    };
    let mut works = charter("the_karst_works", "The Karst Works");
    works.requires_consequence = strs(&["proved_the_veins"]);
    works.forbidden_consequence = strs(&["broke_a_bargain"]);
    works.completion_reward.subsystem_deltas =
        vec![SubsystemDelta { id: "engineering_bay".to_string(), condition: 0, knowledge: 200_000 }];
    works.completion_reward.log = "The works master extraction for good.".to_string();
    let mut writ = charter("the_seedbearers_writ", "The Seedbearers' Writ");
    writ.requires_faction_aboard = strs(&["verdant_kin"]);
    let founding = charter("founding_colony", "The Founding Colony");
    vec![survey, sanctuary, hard, works, writ, founding]
}

fn component(id: &str, kind: ComponentKind, cargo: i32, speed: i32, combat: i32) -> ShipComponent {
    ShipComponent {
        id: id.to_string(),
        kind,
        name: id.to_string(),
        stats: ComponentStats { cargo, crew_capacity: 0, speed, combat, fuel_regen: 0 },
    }
}

fn data() -> GameData {
    GameData {
        config: config(),
        ship_components: vec![
            component("colony_barge", ComponentKind::Hull, 200, 0, 0),
            component("ion_drive", ComponentKind::Engine, 0, 2, 0),
            component("mass_driver", ComponentKind::Weapon, 0, 0, 5),
        ],
        subsystems: vec![
            module("medical_bay", "Medical Bay", "biology_medical"),
            module("agriculture", "Hydroponic Decks", "survival"),
            module("engineering_bay", "Engineering Bay", "engineering"),
            module("education_culture", "Culture Archive", "legacy_drift"),
            module("life_support_habitat", "Life Support Plant", "ethics"),
            module("security", "Security Corps", "diplomacy"),
        ],
        legacies: legacies(),
        factions: vec![
            people("hearth_union", "the Hearth Union", -200_000, "agriculture", &["steel_covenant"], &["verdant_kin"]),
            people("verdant_kin", "the Verdant Kin", 100_000, "agriculture", &["steel_covenant"], &["hearth_union"]),
            people("meridian_accord", "the Meridian Accord", 0, "security", &[], &[]),
            people("steel_covenant", "the Steel Covenant", 400_000, "engineering_bay", &["verdant_kin"], &[]),
            people("first_flame", "the Keepers of the First Flame", -600_000, "education_culture", &[], &[]),
            people("ascension_circle", "the Ascension Circle", 800_000, "medical_bay", &[], &[]),
        ],
        crew_archetypes: vec![
            CrewArchetype { id: "engineer".to_string(), name: "Chief Engineer".to_string() },
            CrewArchetype { id: "medic".to_string(), name: "Ship's Surgeon".to_string() },
        ],
        contracts: charters(),
        events: vec![],
        member_names: strs(&["Ada", "Bram", "Cato", "Dara", "Eun", "Fenn"]),
    }
}

fn member(id: u32, name: &str, age: u32, leadership: u32, is_leader: bool) -> DynastyMember {
    DynastyMember { id, name: name.to_string(), age, leadership, is_leader }
}

fn faction(id: &str, members: u32) -> FactionState {
    FactionState {
        faction_id: id.to_string(),
        members,
        status: FactionStatus::Aboard,
        approval: default_approval(),
        mood_band: 0,
    }
}

fn fresh_module(id: &str) -> SubsystemState {
    SubsystemState { id: id.to_string(), tier: 0, condition: ONE, knowledge: 800_000 }
}

fn campaign(legacy: &str, seed: u64) -> SimState {
    SimState {
        rolls: tape(seed),
        year: 0,
        month_clock: 0,
        last_event_month_clock: 0,
        market: Market {
            entries: vec![
                MarketEntry { resource: TradeResource::Energy, price: 2_000_000, trend: 0 },
                MarketEntry { resource: TradeResource::Minerals, price: 3_000_000, trend: 0 },
                MarketEntry { resource: TradeResource::Food, price: 1_500_000, trend: 0 },
                MarketEntry { resource: TradeResource::Influence, price: 10_000_000, trend: 0 },
            ],
            impact_per_unit: 200,
        },
        resources: ResourceState { credits: 2_000, energy: 500, minerals: 500, food: 2_000, influence: 100 },
        ship: ShipState {
            hull_integrity: ONE,
            life_support: ONE,
            fuel: ONE,
            spare_parts: 20,
            hull: "colony_barge".to_string(),
            engine: "ion_drive".to_string(),
            weapon: None,
            salvage: vec![],
        },
        population: PopulationState {
            count: 1_000,
            morale: 700_000,
            unity: 700_000,
            stability: 700_000,
            legacy_loyalty: 800_000,
            adaptation: 0,
            cultural_drift: 0,
        },
        legacy: LegacyTrack {
            legacy_id: legacy.to_string(),
            tradition_points: 50,
            body_horror_events: 0,
            existential_dread: 0,
            piracy_reputation: 0,
        },
        dynasty: Dynasty {
            members: vec![
                member(1, "Ada", 45, 7, true),
                member(2, "Bram", 30, 8, false),
                member(3, "Cato", 22, 4, false),
                member(4, "Dara", 10, 3, false),
            ],
            designated_heir: None,
            extinct: false,
            generation: 1,
            years_since_generation: 0,
            births_this_generation: 0,
            next_member_id: 5,
            leader_reign_years: 0,
            long_reign_marked: false,
            dynasty_crisis_marked: false,
        },
        crew: vec![
            CrewMember { id: 1, name: "Oren".to_string(), age: 35, archetype_id: "engineer".to_string() },
            CrewMember { id: 2, name: "Sela".to_string(), age: 41, archetype_id: "medic".to_string() },
        ],
        contract: None,
        pending_dilemma: None,
        pending_event: None,
        log: vec![],
        factions: vec![faction("hearth_union", 400), faction("verdant_kin", 350), faction("meridian_accord", 250)],
        consequences: vec![],
        reputation: vec![],
        subsystems: vec![
            fresh_module("medical_bay"),
            fresh_module("agriculture"),
            fresh_module("engineering_bay"),
            fresh_module("education_culture"),
            fresh_module("life_support_habitat"),
            fresh_module("security"),
        ],
        event_fire_counts: vec![],
        lean_food_years: 0,
        fat_food_years: 0,
        scheduled_events: vec![],
        production: ProductionRates {
            credits: 100 * ONE,
            energy: 80 * ONE,
            minerals: 60 * ONE,
            food: 1_100 * ONE,
            influence: 10 * ONE,
        },
        stalled_months: 0,
        fuel_stalled_this_year: false,
        fuel_stall_years: 0,
        fuel_scooped_accum: 0,
        delegation: vec![],
        subsystem_beats_fired: vec![],
        hull_beat_band: 0,
        reputation_beat_band: 0,
        depopulation_beats_fired: 0,
        founding_beat_fired: false,
        last_dominant_faction: String::new(),
    }
}

fn module_mut<'a>(sim: &'a mut SimState, id: &str) -> &'a mut SubsystemState {
    sim.subsystems.iter_mut().find(|s| s.id == id).unwrap()
}

fn module_of<'a>(sim: &'a SimState, id: &str) -> &'a SubsystemState {
    sim.subsystems.iter().find(|s| s.id == id).unwrap()
}

fn approval_of(sim: &SimState, id: &str) -> i64 {
    sim.factions.iter().find(|f| f.faction_id == id).unwrap().approval
}

fn set_reputation(sim: &mut SimState, id: &str, value: i64) {
    match sim.reputation.iter_mut().find(|r| r.id == id) {
        Some(r) => r.value = value,
        None => sim.reputation.push(ReputationEntry { id: id.to_string(), value }),
    }
}

fn charter_of(data: &GameData, id: &str) -> ContractTemplate {
    data.contracts.iter().find(|c| c.id == id).unwrap().clone()
}
