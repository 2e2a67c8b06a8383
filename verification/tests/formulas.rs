#![allow(dead_code, unused_imports)]

use stellar_legacy::config::{
    CampaignSkeletonConfig, CrewConfig, FailureRiskConfig, FlavorConfig, GameConfig, MortalityConfig, ProvisioningConfig, RealTimeConfig,
    RepairConfig, ShipConfig, SubsystemBeat, SubsystemsConfig, VoyageDriftConfig,
};
use stellar_legacy::data::{
    Abandonment, AnnualToll, ApprovalCeiling, ApprovalFloor, CompletionReward, Complication, ComponentKind, ComponentStats,
    ContractObjective, ContractPhase, ContractTemplate, CrewArchetype, DilemmaDef, DilemmaEffect, DilemmaOption,
    EventCategory, EventOutcome, EventTemplate, FactionDef, FactionLossKind, Followup, GameData, KnowledgeFloor,
    LegacyDef, MetricKind, NamedDelta, OutcomeAvailability, PhaseSegment, ReputationGate, ScheduledBeat, ShipComponent,
    SubsystemDef, SubsystemDelta, SubsystemGate, SuccessMetric, TierDef,
};
use stellar_legacy::deltas::{PopulationDelta, ResourceDelta, ShipDelta};
use stellar_legacy::rolls::Rolls;
use stellar_legacy::state::{
    default_approval, CrewMember, Dynasty, DynastyMember, FactionState, FactionStatus, LegacyTrack, Market,
    MarketEntry, PendingDilemma, PendingEvent, PopulationState, ProductionRates, ReputationEntry, ResourceState, ShipState, SimState,
    SubsystemState, TradeResource,
};

use stellar_legacy::contract::{prorated_reward, score_success, start_contract, SuccessLevel};
use stellar_legacy::event_resolver::roll_event_in_family;
use stellar_legacy::economy::{feed_the_crew, ProductionMultipliers, ShipFactors};
use stellar_legacy::fixed::{add_count, add_floor0, add_parts, add_unit, clamp_i64, fmul, mul_frac, ratio};
use stellar_legacy::market::{buy, price_of, sell};
use stellar_legacy::ship::{field_repair, full_repair, RepairKind};
use stellar_legacy::mortality::{event_claim, monthly_death_chance, monthly_tick};
use stellar_legacy::state::MetricState;
use stellar_legacy::subsystems::{
    life_support_mortality_loss,
    agriculture_condition_food_factor, agriculture_food_bonus, decay_subsystems, family_weight_factor,
    habitat_morale_effect, life_support_decay_reduction, medical_famine_relief, security_stability_recovery,
    security_unity_recovery, train_subsystem_knowledge,
};
use stellar_legacy::text::{decimal_text, line_with_name, line_with_name_post, replace_in, signed_decimal_text};
use stellar_legacy::tick::advance_year;
use stellar_legacy::util::{is_blank, join2};
use stellar_legacy::voyage::{
    apply_voyage_drift, clear_majority_faction, energy_production_factor, influence_governance_factor,
    year_invariants_hold,
};

fn factors() -> ShipFactors {
    ShipFactors {
        fuel_burn_factor: ONE,
        crew_production: ProductionMultipliers { credits: ONE, energy: ONE, minerals: ONE, food: ONE, influence: ONE },
        famine_loss_reduction: 0,
        crew_unity_recovery: 0,
        fabrication_factor: ONE,
        hull_decay_factor: ONE,
        education_morale: 0,
    }
}

fn has_leader(sim: &SimState) -> bool {
    sim.dynasty.members.iter().any(|m| m.is_leader)
}

// ---------------------------------------------------------------- fixed-point arithmetic

#[test]
fn fractions_scale_toward_zero() {
    assert_eq!(mul_frac(1_000, 250_000), 250);
    assert_eq!(mul_frac(-1_001, 500_000), -500);
    assert_eq!(fmul(3 * ONE, -ONE / 2), -1_500_000);
    assert_eq!(ratio(1, 3), 333_333);
    assert_eq!(ratio(3, 3), ONE);
}

#[test]
fn sums_stay_in_their_ranges() {
    assert_eq!(add_unit(900_000, 200_000), ONE);
    assert_eq!(add_unit(100_000, -200_000), 0);
    assert_eq!(add_unit(100_000, 200_000), 300_000);
    assert_eq!(add_floor0(5, -10), 0);
    assert_eq!(add_floor0(i64::MAX, 1), i64::MAX);
    assert_eq!(add_count(3, -5), 0);
    assert_eq!(add_count(10, 5), 15);
    assert_eq!(add_count(u32::MAX, 1), u32::MAX);
    assert_eq!(add_parts(2, -3), 0);
    assert_eq!(clamp_i64(5, 0, 3), 3);
    assert_eq!(clamp_i64(-5, 0, 3), 0);
}

#[test]
fn text_helpers_join_and_fill() {
    assert_eq!(join2("Deep ", "Vein"), "Deep Vein");
    assert!(is_blank(&String::new()));
    assert!(!is_blank(&" ".to_string()));
    assert_eq!(replace_in("Hello {name}, {name}!", "{name}", "Ada"), "Hello Ada, Ada!");
    assert_eq!(replace_in("no key here", "{name}", "Ada"), "no key here");
}

#[test]
fn pooled_lines_fill_every_name_slot() {
    let pool = strs(&["{name} rests.", "{name} and {name} again."]);
    assert_eq!(line_with_name(&pool, 0, "Ada"), Some("Ada rests.".to_string()));
    assert_eq!(line_with_name(&pool, 3, "Bram"), Some("Bram and Bram again.".to_string()));
    assert_eq!(line_with_name(&Vec::new(), 3, "Bram"), None);
    let posts = strs(&["The {post}, {name}, is gone."]);
    assert_eq!(
        line_with_name_post(&posts, 7, "Oren", "Chief Engineer"),
        Some("The Chief Engineer, Oren, is gone.".to_string())
    );
}

// ---------------------------------------------------------------- mortality

#[test]
fn death_risk_doubles_past_onset() {
    let cfg = config().mortality;
    assert_eq!(monthly_death_chance(30, &cfg, 100), 100);
    assert_eq!(monthly_death_chance(50, &cfg, 100), 100 + 200);
    assert_eq!(monthly_death_chance(58, &cfg, 100), 100 + 400);
    // Halfway to the next doubling the risk has risen in a straight line.
    assert_eq!(monthly_death_chance(62, &cfg, 100), 100 + 600);
    assert_eq!(monthly_death_chance(100, &cfg, 100), ONE);
}

#[test]
fn an_event_claim_never_takes_the_leader() {
    let data = data();
    let mut claimed = 0;
    for seed in 0..60u64 {
        let mut sim = campaign("wanderers", seed);
        sim.crew.clear();
        let before = sim.dynasty.members.len();
        event_claim(&mut sim, &data, 100);
        assert!(has_leader(&sim), "seed {seed}: the leader must be spared");
        assert_eq!(sim.dynasty.members[0].name, "Ada");
        if sim.dynasty.members.len() < before {
            claimed += 1;
            assert_eq!(sim.dynasty.members.len(), before - 1);
        }
    }
    assert!(claimed > 0, "some draw should claim a relative");
}

#[test]
fn a_small_loss_claims_no_one() {
    let data = data();
    let mut sim = campaign("wanderers", 3);
    event_claim(&mut sim, &data, 10);
    assert_eq!(sim.dynasty.members.len(), 4);
    assert_eq!(sim.crew.len(), 2);
    assert!(sim.log.is_empty());
}

// ---------------------------------------------------------------- the modules' effects

#[test]
fn the_garden_feeds_by_tier_and_condition() {
    let data = data();
    let mut sim = campaign("wanderers", 1);
    assert_eq!(agriculture_food_bonus(&sim, &data), 0);
    assert_eq!(agriculture_condition_food_factor(&sim, &data), ONE);
    module_mut(&mut sim, "agriculture").tier = 2;
    module_mut(&mut sim, "agriculture").condition = 400_000;
    assert_eq!(agriculture_food_bonus(&sim, &data), 200_000);
    // 1 - 0.5 x (1 - 0.4)
    assert_eq!(agriculture_condition_food_factor(&sim, &data), 700_000);
}

#[test]
fn the_plant_slows_air_decay_by_tier_and_condition() {
    let data = data();
    let mut sim = campaign("wanderers", 1);
    assert_eq!(life_support_decay_reduction(&sim, &data), 0);
    module_mut(&mut sim, "life_support_habitat").tier = 1;
    module_mut(&mut sim, "life_support_habitat").condition = 500_000;
    assert_eq!(life_support_decay_reduction(&sim, &data), 100_000);
}

#[test]
fn the_infirmary_and_the_watch_recover_by_condition() {
    let data = data();
    let mut sim = campaign("wanderers", 1);
    assert_eq!(medical_famine_relief(&sim, &data), 300_000);
    module_mut(&mut sim, "medical_bay").condition = 500_000;
    assert_eq!(medical_famine_relief(&sim, &data), 150_000);
    // At the ceiling there is nothing to recover.
    assert_eq!(security_unity_recovery(&sim, &data), 0);
    assert_eq!(security_stability_recovery(&sim, &data), 0);
    sim.population.unity = 500_000;
    sim.population.stability = 600_000;
    module_mut(&mut sim, "security").condition = 500_000;
    assert_eq!(security_unity_recovery(&sim, &data), 10_000);
    assert_eq!(security_stability_recovery(&sim, &data), 10_000);
}

#[test]
fn the_habitat_swings_morale_around_half() {
    let data = data();
    let mut sim = campaign("wanderers", 1);
    assert_eq!(habitat_morale_effect(&sim, &data), 20_000);
    module_mut(&mut sim, "life_support_habitat").condition = 0;
    assert_eq!(habitat_morale_effect(&sim, &data), -20_000);
    module_mut(&mut sim, "life_support_habitat").condition = ONE / 2;
    assert_eq!(habitat_morale_effect(&sim, &data), 0);
}

#[test]
fn a_built_up_module_makes_its_family_rarer() {
    let data = data();
    let mut sim = campaign("wanderers", 1);
    let survival = "survival".to_string();
    assert_eq!(family_weight_factor(&sim, &data, &survival), ONE);
    module_mut(&mut sim, "agriculture").tier = 1;
    assert_eq!(family_weight_factor(&sim, &data, &survival), 800_000);
    module_mut(&mut sim, "agriculture").condition = 500_000;
    assert_eq!(family_weight_factor(&sim, &data, &survival), 900_000);
    assert_eq!(family_weight_factor(&sim, &data, &"no_such_family".to_string()), ONE);
}

#[test]
fn a_sound_engineering_bay_slows_everyone_elses_decay() {
    let data = data();
    let mut sim = campaign("wanderers", 1);
    decay_subsystems(&mut sim, &data, ONE);
    assert_eq!(module_of(&sim, "engineering_bay").condition, 980_000);
    assert_eq!(module_of(&sim, "medical_bay").condition, 985_000);
    assert_eq!(module_of(&sim, "agriculture").condition, 985_000);
    decay_subsystems(&mut sim, &data, 2 * ONE);
    assert_eq!(module_of(&sim, "engineering_bay").condition, 940_000);
}

// ---------------------------------------------------------------- the voyage

#[test]
fn low_power_sheds_output_in_a_straight_line() {
    let c = config();
    let mut sim = campaign("wanderers", 1);
    assert_eq!(energy_production_factor(&sim, &c), ONE);
    sim.resources.energy = 50;
    assert_eq!(energy_production_factor(&sim, &c), 750_000);
    sim.resources.energy = 0;
    assert_eq!(energy_production_factor(&sim, &c), 500_000);
}

#[test]
fn unrest_thins_the_influence_minted() {
    let c = config();
    let mut sim = campaign("wanderers", 1);
    assert_eq!(influence_governance_factor(&sim, &c), ONE);
    sim.population.stability = 200_000;
    assert_eq!(influence_governance_factor(&sim, &c), 650_000);
    sim.population.stability = 0;
    assert_eq!(influence_governance_factor(&sim, &c), 300_000);
}

#[test]
fn a_clear_majority_needs_a_tenth_more_than_the_runner_up() {
    let mut sim = campaign("wanderers", 1);
    assert_eq!(clear_majority_faction(&sim), Some("hearth_union".to_string()));
    sim.factions[1].members = 380;
    assert_eq!(clear_majority_faction(&sim), None);
    sim.factions[1].status = FactionStatus::Departed;
    sim.factions[2].status = FactionStatus::Departed;
    assert_eq!(clear_majority_faction(&sim), Some("hearth_union".to_string()));
}

#[test]
fn a_year_of_drift_follows_legacy_ideology_and_modules() {
    let data = data();
    let mut sim = campaign("preservers", 1);
    apply_voyage_drift(&mut sim, &data);
    assert_eq!(sim.population.morale, 699_000);
    assert_eq!(sim.population.unity, 699_000);
    assert_eq!(sim.population.legacy_loyalty, 800_000 - 846);
    assert_eq!(sim.population.adaptation, 1_118);
    assert_eq!(sim.population.cultural_drift, 1_128);
    assert_eq!(sim.population.stability, 700_000);
    assert_eq!(sim.population.count, 1_000);
}

#[test]
fn the_year_invariants_hold_of_a_fresh_campaign_and_not_of_a_headless_line() {
    let mut sim = campaign("wanderers", 1);
    assert!(year_invariants_hold(&sim));
    sim.dynasty.members[0].is_leader = false;
    assert!(!year_invariants_hold(&sim));
    sim.dynasty.extinct = true;
    assert!(year_invariants_hold(&sim));
    sim.dynasty.extinct = false;
    sim.dynasty.members[0].is_leader = true;
    sim.population.morale = ONE + 1;
    assert!(!year_invariants_hold(&sim));
}

#[test]
fn every_year_flown_ends_with_the_year_invariants() {
    let data = data();
    let mut sim = campaign("wanderers", 9);
    sim.contract = Some(start_contract(&charter_of(&data, "deep_vein_survey"), &sim));
    for _ in 0..30 {
        sim.pending_event = None;
        sim.pending_dilemma = None;
        let report = advance_year(&mut sim, &data, &factors());
        assert!(report.months_advanced > 0);
        assert!(year_invariants_hold(&sim), "year {}", sim.year);
        if sim.dynasty.extinct {
            break;
        }
    }
}

// ---------------------------------------------------------------- the charter's arithmetic

#[test]
fn a_charter_timeline_counts_its_months() {
    let data = data();
    let sim = campaign("wanderers", 1);
    let mut c = start_contract(&charter_of(&data, "deep_vein_survey"), &sim);
    assert_eq!(c.total_months(), 340 * 12);
    assert_eq!(c.operation_months(), 300 * 12);
    assert_eq!(c.segment_start(1), 240);
    assert_eq!(c.segment_start(2), 3_840);
    assert_eq!(c.phase_at(0), (0, ContractPhase::Preparation));
    assert_eq!(c.phase_at(240), (0, ContractPhase::Travel));
    assert_eq!(c.phase_at(241), (1, ContractPhase::Operation));
    assert_eq!(c.progress(), 0);
    c.months_elapsed = 1_020;
    assert_eq!(c.progress(), 250_000);
    c.months_elapsed = 10_000;
    assert_eq!(c.progress(), ONE);
}

#[test]
fn upkeep_health_is_the_share_of_healthy_months() {
    let data = data();
    let sim = campaign("wanderers", 1);
    let mut c = start_contract(&charter_of(&data, "deep_vein_survey"), &sim);
    assert_eq!(c.upkeep_health(), ONE);
    c.months_elapsed = 10;
    c.healthy_food_months = 10;
    c.healthy_energy_months = 5;
    assert_eq!(c.upkeep_health(), 750_000);
}

#[test]
fn a_prorated_reward_scales_every_store() {
    let reward = ResourceDelta { credits: 5_000, energy: -300, minerals: 7, food: 0, influence: 11 };
    let pay = prorated_reward(&reward, 400_000);
    assert_eq!(pay.credits, 2_000);
    assert_eq!(pay.energy, -120);
    assert_eq!(pay.minerals, 2);
    assert_eq!(pay.food, 0);
    assert_eq!(pay.influence, 4);
}

fn metric(weight: i64, target: i64, current: i64) -> MetricState {
    MetricState {
        id: "m".to_string(),
        kind: MetricKind::MissionCompletion,
        name: "M".to_string(),
        weight,
        target,
        current,
    }
}

#[test]
fn a_charter_scores_its_weighted_metrics_in_bands() {
    let (score, level) = score_success(&vec![metric(600_000, 100, 50), metric(400_000, 0, 0)]);
    assert_eq!(score, 700_000);
    assert_eq!(level, SuccessLevel::Partial);
    let (score, level) = score_success(&vec![metric(ONE, 100, 250)]);
    assert_eq!(score, ONE);
    assert_eq!(level, SuccessLevel::Complete);
    let (score, level) = score_success(&vec![metric(ONE, 100, 39)]);
    assert_eq!(score, 390_000);
    assert_eq!(level, SuccessLevel::Failure);
    assert_eq!(score_success(&vec![metric(ONE, 100, 40)]).1, SuccessLevel::Pyrrhic);
    assert_eq!(score_success(&Vec::new()), (0, SuccessLevel::Failure));
}

#[test]
fn the_market_quotes_each_price() {
    let sim = campaign("wanderers", 1);
    assert_eq!(price_of(&sim, TradeResource::Food), 1_500_000);
    assert_eq!(price_of(&sim, TradeResource::Influence), 10_000_000);
}

#[test]
fn a_famine_is_never_entirely_painless() {
    let data = data();
    let mut sim = campaign("wanderers", 1);
    sim.resources.food = 100;
    let mut f = factors();
    f.famine_loss_reduction = 900_000;
    feed_the_crew(&mut sim, &data, &f);
    // The combined relief is capped at nine in ten: 1000 x 0.02 x 0.1.
    assert_eq!(sim.population.count, 998);
    let mut small = campaign("wanderers", 1);
    small.population.count = 1;
    small.resources.food = 0;
    feed_the_crew(&mut small, &data, &f);
    assert_eq!(small.population.count, 0);
}

// ---------------------------------------------------------------- numbers in the log

#[test]
fn numbers_are_written_in_plain_decimal() {
    assert_eq!(decimal_text(0), "0");
    assert_eq!(decimal_text(7), "7");
    assert_eq!(decimal_text(1_234_567), "1234567");
    assert_eq!(decimal_text(u64::MAX), u64::MAX.to_string());
    assert_eq!(signed_decimal_text(-42), "-42");
    assert_eq!(signed_decimal_text(i64::MIN), i64::MIN.to_string());
    assert_eq!(signed_decimal_text(905), "905");
}

#[test]
fn a_death_without_a_pooled_line_gives_name_and_age() {
    let mut data = data();
    data.config.flavor.obituary = vec![];
    data.config.flavor.crew_death = vec![];
    let mut sim = campaign("wanderers", 5);
    sim.dynasty.members[1].age = 100;
    sim.crew[0].age = 100;
    monthly_tick(&mut sim, &data);
    assert_eq!(sim.log[0].text, "Bram passed away, aged 100.");
    assert_eq!(sim.log[1].text, "Oren, the ship's Chief Engineer, died at 100.");
}

#[test]
fn refused_trades_say_why() {
    let mut sim = campaign("wanderers", 1);
    assert_eq!(buy(&mut sim, TradeResource::Food, 10_000), Err("Need 15000 credits".to_string()));
    assert_eq!(sell(&mut sim, TradeResource::Influence, 10_000), Err("Not enough influence to sell".to_string()));
    assert_eq!(sim.resources.credits, 2_000);
}

#[test]
fn refused_module_training_says_why() {
    let data = data();
    let mut sim = campaign("wanderers", 1);
    assert_eq!(train_subsystem_knowledge(&mut sim, &data, "warp_core"), Err("Unknown subsystem.".to_string()));
    sim.resources.credits = 0;
    assert_eq!(
        train_subsystem_knowledge(&mut sim, &data, "security"),
        Err("Training a new cohort needs 100 credits.".to_string())
    );
}

#[test]
fn repairs_say_what_they_did_or_why_not() {
    let c = config();
    let mut sim = campaign("wanderers", 1);
    assert_eq!(
        field_repair(&mut sim, &c, RepairKind::Hull),
        Err("Field repairs won't hold past a point — that needs a drydock.".to_string())
    );
    sim.ship.life_support = 500_000;
    assert_eq!(field_repair(&mut sim, &c, RepairKind::LifeSupport), Ok(()));
    assert_eq!(sim.log.last().unwrap().text, "Life support patched in the field — it will hold, for now.");
    assert_eq!(sim.ship.life_support, 600_000);
    sim.ship.spare_parts = 0;
    assert_eq!(
        field_repair(&mut sim, &c, RepairKind::LifeSupport),
        Err("Not enough spare parts for a field repair.".to_string())
    );
    sim.contract = Some(start_contract(&charter_of(&data(), "deep_vein_survey"), &sim));
    assert_eq!(
        full_repair(&mut sim, &c),
        Err("A full refit can only be done in port, between missions.".to_string())
    );
    sim.contract = None;
    assert_eq!(full_repair(&mut sim, &c), Ok(()));
    assert_eq!(sim.log.last().unwrap().text, "Full refit complete in drydock — the ship is whole again.");
}

#[test]
fn a_vacant_chair_passes_to_the_strongest_heir_in_the_band() {
    let data = data();
    let mut sim = campaign("wanderers", 5);
    sim.dynasty.members[0].age = 100;
    let extinct = monthly_tick(&mut sim, &data);
    assert!(!extinct);
    assert_eq!(sim.dynasty.members.len(), 3);
    let leaders: Vec<&str> = sim.dynasty.members.iter().filter(|m| m.is_leader).map(|m| m.name.as_str()).collect();
    assert_eq!(leaders, vec!["Bram"]);
    assert_eq!(sim.log[0].text, "Ada is laid to rest among the stars.");
    assert_eq!(sim.log[1].text, "Bram takes the chair.");
    assert_eq!(sim.log.len(), 2);
}

#[test]
fn a_leader_past_retirement_hands_over_when_an_heir_is_ready() {
    let data = data();
    let mut sim = campaign("wanderers", 5);
    sim.dynasty.members[0].age = 71;
    sim.dynasty.designated_heir = Some(3);
    monthly_tick(&mut sim, &data);
    assert_eq!(sim.dynasty.members.len(), 4);
    assert!(!sim.dynasty.members[0].is_leader);
    assert!(sim.dynasty.members[2].is_leader, "the designated heir in the band takes the chair");
    assert_eq!(sim.dynasty.designated_heir, None);
    assert_eq!(sim.log[0].text, "Cato takes the chair.");
}

#[test]
fn a_leader_within_age_keeps_the_chair() {
    let data = data();
    let mut sim = campaign("wanderers", 5);
    monthly_tick(&mut sim, &data);
    assert!(sim.dynasty.members[0].is_leader);
    assert!(sim.log.is_empty());
}

// ---------------------------------------------------------------- the pick forgets the catalog's order

#[test]
fn the_pick_does_not_depend_on_the_catalog_order() {
    let mut seen = Vec::new();
    for seed in 0..40u64 {
        let mut d1 = data();
        d1.events = vec![event("b_storm", "survival"), event("a_drought", "survival"), event("c_blight", "survival")];
        let mut d2 = data();
        d2.events = vec![event("c_blight", "survival"), event("a_drought", "survival"), event("b_storm", "survival")];
        let mut s1 = campaign("wanderers", seed);
        let mut s2 = campaign("wanderers", seed);
        let p1 = roll_event_in_family(&mut s1, &d1, "survival").unwrap();
        let p2 = roll_event_in_family(&mut s2, &d2, "survival").unwrap();
        assert_eq!(p1.template_id, p2.template_id, "seed {seed}");
        if !seen.contains(&p1.template_id) {
            seen.push(p1.template_id.clone());
        }
    }
    assert!(seen.len() > 1, "different draws should name different events");
}

#[test]
fn equal_weights_are_weighed_in_id_order() {
    // With three equal weights the draw picks by rank in id order.
    let mut d = data();
    d.events = vec![event("c_blight", "survival"), event("b_storm", "survival"), event("a_drought", "survival")];
    let mut sim = campaign("wanderers", 1);
    sim.rolls = Rolls::new(vec![0]);
    assert_eq!(roll_event_in_family(&mut sim, &d, "survival").unwrap().template_id, "a_drought");
    let mut sim = campaign("wanderers", 1);
    sim.rolls = Rolls::new(vec![2 * ONE as u64 + 1]);
    assert_eq!(roll_event_in_family(&mut sim, &d, "survival").unwrap().template_id, "c_blight");
}

#[test]
fn a_worse_plant_or_less_power_never_costs_fewer_lives() {
    let data = data();
    let mut sim = campaign("wanderers", 1);
    module_mut(&mut sim, "life_support_habitat").condition = 200_000;
    module_mut(&mut sim, "agriculture").condition = 0;
    let base = life_support_mortality_loss(&sim, &data);
    assert!(base > 0);
    module_mut(&mut sim, "life_support_habitat").condition = 100_000;
    let worse = life_support_mortality_loss(&sim, &data);
    assert!(worse >= base);
    sim.resources.energy = 10;
    let darker = life_support_mortality_loss(&sim, &data);
    assert!(darker >= worse);
    // Threshold 0.5, condition 0.1: severity 0.8, toll 0.1 x 0.8 of 1000.
    assert_eq!(worse, 80);
}


// ---------------------------------------------------------------- event builders

fn event(id: &str, family: &str) -> EventTemplate {
    EventTemplate {
        id: id.to_string(),
        title: id.replace('_', " "),
        description: format!("The {} unfolds.", id.replace('_', " ")),
        category: EventCategory::GenerationalChallenge,
        family: family.to_string(),
        outcomes: vec![choice("carry_on")],
        complications: vec![],
        legacy_weight_modifiers: vec![],
        scheduled_only: false,
        phases: vec![],
        requires_consequence: vec![],
        forbidden_consequence: vec![],
        requires_charter_tag: vec![],
        requires_dominant_faction: String::new(),
        requires_factions_aboard: vec![],
        faction_approval_below: vec![],
        faction_approval_above: vec![],
        knowledge_below: vec![],
        condition_below: vec![],
        food_below: None,
        fuel_below: None,
        spare_parts_below: None,
        energy_below: None,
        food_above: None,
        credits_above: None,
        max_year: 0,
        max_generation: 0,
        min_objective_fraction: 0,
        max_population: 0,
        max_dynasty_size: 0,
        hull_below: None,
        life_support_below: None,
        min_lean_food_years: 0,
        min_fat_food_years: 0,
        max_legacy_loyalty: 0,
        max_stability: 0,
        min_reputation: vec![],
        max_reputation: vec![],
        min_year: 0,
        min_generation: 0,
        min_cultural_drift: 0,
        min_morale: 0,
        min_unity: 0,
        requires_decision: false,
    }
}

fn open_to_all() -> OutcomeAvailability {
    OutcomeAvailability {
        requires_consequence: vec![],
        min_knowledge: vec![],
        min_reputation: vec![],
        max_reputation: vec![],
        requires_dominant_faction: String::new(),
    }
}

fn choice(id: &str) -> EventOutcome {
    EventOutcome {
        id: id.to_string(),
        label: id.replace('_', " "),
        log: String::new(),
        resource_delta: no_resources(),
        ship_delta: no_ship(),
        population_delta: no_people(),
        long_term_consequences: vec![],
        reputation_deltas: vec![],
        schedule_followup: None,
        grant_component: None,
        force_return: false,
        faction_loss: None,
        faction_loss_id: None,
        faction_merge_id: None,
        subsystem_deltas: vec![],
        faction_approval_deltas: vec![],
        faction_approval_smallest: 0,
        objective_progress_delta: 0,
        availability: open_to_all(),
    }
}

fn twist(id: &str) -> Complication {
    Complication {
        id: id.to_string(),
        description_add: format!("And worse: {}.", id.replace('_', " ")),
        log: String::new(),
        min_cultural_drift: 0,
        condition_below: vec![],
        requires_consequence: vec![],
        food_below: None,
        requires_dominant_faction: String::new(),
        requires_factions_aboard: vec![],
        min_prior_occurrences: 0,
        max_population: 0,
        min_lean_food_years: 0,
        min_fat_food_years: 0,
        min_reputation: vec![],
        max_reputation: vec![],
        applies_to_outcomes: vec![],
        resource_delta: no_resources(),
        ship_delta: no_ship(),
        population_delta: no_people(),
        subsystem_deltas: vec![],
    }
}

fn followup(id: &str, delay_years: u32) -> Option<Followup> {
    Some(Followup { template_id: id.to_string(), delay_years })
}

fn position(e: &EventTemplate, id: &str) -> usize {
    e.outcomes.iter().position(|o| o.id == id).unwrap()
}

fn module_gate(id: &str, below: i64) -> SubsystemGate {
    SubsystemGate { id: id.to_string(), below }
}

// ---------------------------------------------------------------- fixture

const ONE: i64 = 1_000_000;

fn strs(xs: &[&str]) -> Vec<String> {
    xs.iter().map(|s| s.to_string()).collect()
}

fn tape(seed: u64) -> Rolls {
    let mut x = seed.wrapping_mul(0x9E37_79B9_7F4A_7C15).wrapping_add(0x632B_E59B_D9B4_E019);
    let mut values = Vec::new();
    for _ in 0..4096 {
        x ^= x << 13;
        x ^= x >> 7;
        x ^= x << 17;
        values.push(x);
    }
    Rolls::new(values)
}

fn no_resources() -> ResourceDelta {
    ResourceDelta::zero()
}

fn no_ship() -> ShipDelta {
    ShipDelta::zero()
}

fn no_people() -> PopulationDelta {
    PopulationDelta::zero()
}

fn config() -> GameConfig {
    GameConfig {
        repair: RepairConfig {
            field_ceiling: 800_000,
            field_gain: 100_000,
            field_parts_cost: 5,
            field_minerals_cost: 20,
            full_credits_cost: 500,
            full_minerals_cost: 200,
            full_parts_restock: 50,
        },
        ship: ShipConfig {
            credits_per_speed: 25,
            minerals_per_cargo: 100_000,
            fuel_regen_per_point: 10_000,
            combat_dilemma_odds_per_point: 20_000,
            dilemma_odds_cap: 950_000,
            contract_progress_per_speed: 100_000,
        },
        failure_risk: FailureRiskConfig {
            drift_threshold: 700_000,
            drift_points: 30,
            unity_threshold: 300_000,
            unity_points: 25,
            tradition_threshold: 20,
            tradition_points: 35,
            body_horror_threshold: 5,
            body_horror_points: 30,
            dread_threshold: 700_000,
            dread_points: 30,
            piracy_threshold: 700_000,
            piracy_points: 30,
            at_risk_threshold: 60,
        },
        mortality: MortalityConfig {
            monthly_accident_chance: 100,
            monthly_base_chance: 200,
            onset_age: 50,
            doubling_years: 8,
            dynasty_target_size: 6,
            annual_birth_chance: 300_000,
            event_death_loss_threshold: 50,
            event_death_chance: 250_000,
        },
        crew: CrewConfig { retirement_age: 65, unity_recovery_ceiling: 700_000 },
        real_time: RealTimeConfig { impact_variance: 400_000, impact_min_magnitude_for_range: 20 },
        subsystems: SubsystemsConfig {
            train_cost_credits: 100,
            train_knowledge_gain: 200_000,
            knowledge_decay_per_generation: 150_000,
            education_transmission_per_tier: 50_000,
            education_transmission_condition_penalty: 500_000,
            engineering_decay_swing: 500_000,
            tender_approval_decay_scale: 400_000,
            agriculture_food_bonus_per_tier: 100_000,
            agriculture_condition_food_penalty: 500_000,
            life_support_failure_threshold: 500_000,
            life_support_failure_mortality: 100_000,
            life_support_energy_critical: 50,
            agriculture_life_support_contribution: 200_000,
            medical_famine_relief_per_condition: 300_000,
            security_unity_recovery_per_condition: 20_000,
            security_stability_recovery_per_condition: 20_000,
            security_stability_recovery_ceiling: 700_000,
            habitat_morale_swing: 40_000,
            security_crisis_mitigation: 200_000,
            crisis_weight_floor: 100_000,
            objective_condition_penalty: 500_000,
        },
        voyage_drift: VoyageDriftConfig {
            adaptation_per_year: 5_000,
            cultural_drift_per_year: 4_000,
            legacy_loyalty_per_year: -3_000,
            morale_strain_per_year: -1_000,
            unity_strain_per_year: -1_000,
            legacy_multipliers: vec![
                ("adaptors".to_string(), 1_500_000),
                ("preservers".to_string(), 500_000),
                ("wanderers".to_string(), 1_000_000),
            ],
            dominant_ideology_scale: 300_000,
            archive_drift_resistance: 500_000,
            medical_adaptation_resistance: 400_000,
            agriculture_adaptation_resistance: 300_000,
        },
        flavor: FlavorConfig {
            retirement: strs(&["{name} hands the watch to younger hands."]),
            obituary: strs(&["{name} is laid to rest among the stars."]),
            crew_death: strs(&["The {post}, {name}, is gone."]),
            succession: strs(&["{name} takes the chair."]),
            extinction: strs(&["The line of {name} has ended."]),
            subsystem_repair: strs(&[
                "Welders crawl the {name} until it hums again.",
                "The {name} is coaxed back into service.",
            ]),
            subsystem_training: strs(&["A new cohort learns the {name}."]),
            phase_lines: vec![
                ("travel".to_string(), strs(&["The engines light for the long crossing.", "Underway again, the stars wheel past."])),
                ("operation".to_string(), strs(&["The work begins on station."])),
            ],
            ambient: strs(&["A quiet year aboard."]),
            ambient_lean: strs(&["Another lean year; the ration lines grow quiet."]),
            ambient_lean_years_threshold: 3,
            ambient_hollow: strs(&["The corridors echo, half-empty."]),
            ambient_population_threshold: 200,
            ambient_drifted: strs(&["The old words sound strange to the young."]),
            ambient_drift_threshold: 600_000,
            ambient_fat: strs(&["The galleys overflow; no one remembers hunger."]),
            ambient_fat_years_threshold: 5,
            ambient_gap_years: 4,
            famine: strs(&["The rations ran out; {losses} were lost to the hunger."]),
            fabrication: strs(&["The fabricators turned spare power into {parts} parts."]),
            food_spoilage: strs(&["{spoiled} tonnes of stores spoiled in the holds."]),
            life_support_loss: strs(&["The thin air took {losses}."]),
            fuel_stall: strs(&["The tanks ran dry; the ship coasted in the cold."]),
            coming_of_age: strs(&["Generation {generation} comes of age: {births} new hands."]),
            fuel_report_gap_years: 5,
            fuel_gain: strs(&["The scoop gathered {amount} measures of fuel."]),
            milestone: strs(&["A milestone: {milestone}."]),
            council_summons: strs(&["The council gathers: {title}."]),
        },
        heir_min_age: 18,
        heir_max_age: 60,
        member_max_age: 100,
        leader_retirement_age: 70,
        dilemma_chance_per_generation: 500_000,
        event_chance_base: 200_000,
        event_chance_cap: 800_000,
        low_food_threshold: 200,
        low_energy_threshold: 100,
        hull_warning_threshold: 400_000,
        life_support_warning_threshold: 400_000,
        rival_approval_spillover: 250_000,
        ally_approval_spillover: 250_000,
        influence_governance_threshold: 400_000,
        influence_governance_floor: 300_000,
        low_energy_production_shed: 500_000,
        provisioning: ProvisioningConfig { fuel_burn_per_travel_month: 2_000, no_fuel_decay_multiplier: 2 * ONE },
        food_per_person_per_year: 1_000_000,
        lean_food_threshold: 500,
        fat_food_threshold: 20_000,
        surplus_energy_threshold: 800,
        fabrication_energy_cost: 300,
        fabrication_minerals_cost: 50,
        fabrication_parts_yield: 10,
        food_carrying_capacity: 50_000,
        food_spoilage_fraction: 100_000,
        chronic_hunger_years: 3,
        chronic_hunger_morale_drain: 20_000,
        sustained_plenty_morale_lift: 10_000,
        becalmed_morale_drain: 30_000,
        parts_upkeep_per_year: 2,
        maintenance_decay_relief: 500_000,
        hull_decay_per_year: 10_000,
        life_support_decay_per_year: 8_000,
        approval_unity_coupling: 100_000,
        ideology_spread_stability_penalty: 50_000,
        ideology_spread_threshold: 1_000_000,
        generation_interval_years: 25,
        campaign_skeleton: CampaignSkeletonConfig {
            drift_beats: vec![300_000, 600_000],
            drift_beat_family: "legacy_drift".to_string(),
            adaptation_beats: vec![400_000],
            adaptation_beat_family: "biology_medical".to_string(),
            crisis_beats: vec![400_000, 200_000],
            crisis_beat_family: "diplomacy".to_string(),
            loyalty_beats: vec![400_000],
            loyalty_beat_family: "ethics".to_string(),
            stability_beats: vec![400_000],
            stability_beat_family: "diplomacy".to_string(),
            subsystem_beats: vec![SubsystemBeat {
                subsystem: "life_support_habitat".to_string(),
                threshold: 300_000,
                family: "survival".to_string(),
            }],
            hull_beat_family: "engineering".to_string(),
            hull_beat_threshold: 300_000,
            reputation_beat_trait: "mercy".to_string(),
            reputation_beat_family: "ethics".to_string(),
            reputation_beat_high: 800_000,
            reputation_beat_low: 200_000,
            recovery_beat_family: "diplomacy".to_string(),
            recovery_beat_threshold: 600_000,
            flourish_beats: vec![850_000],
            flourish_beat_family: "survival".to_string(),
            depopulation_beats: vec![700_000, 400_000],
            depopulation_beat_family: "survival".to_string(),
            objective_beats: vec![500_000],
            objective_beat_family: "exploration_first_contact".to_string(),
            homecoming_beat_family: "legacy_drift".to_string(),
            midvoyage_beat_family: "legacy_drift".to_string(),
            founding_beat_family: "legacy_drift".to_string(),
            founding_beat_year: 80,
            power_transition_beat_family: "diplomacy".to_string(),
            anniversary_years: 50,
            anniversary_beat_family: "legacy_drift".to_string(),
            succession_beat_family: "ethics".to_string(),
            long_reign_years: 30,
            long_reign_beat_family: "ethics".to_string(),
            dynasty_crisis_size: 2,
            dynasty_crisis_beat_family: "ethics".to_string(),
            dead_air_years: 10,
            dead_air_pool: strs(&["survival", "engineering"]),
        },
        starting_population: 1_000,
        log_limit: 500,
    }
}

fn tier(severity_reduction: i64, weight_multiplier: i64, credits: i64, flavor: &str) -> TierDef {
    TierDef {
        severity_reduction,
        weight_multiplier,
        cost: ResourceDelta { credits: -credits, energy: 0, minerals: -credits / 2, food: 0, influence: 0 },
        flavor: flavor.to_string(),
    }
}

fn module(id: &str, name: &str, buffers: &str) -> SubsystemDef {
    SubsystemDef {
        id: id.to_string(),
        name: name.to_string(),
        buffers_family: buffers.to_string(),
        tiers: vec![
            tier(200_000, 800_000, 1_000, &format!("The {} is rebuilt to a sturdier pattern.", name)),
            tier(400_000, 600_000, 2_000, &format!("The {} is refitted with salvaged alloys.", name)),
            tier(600_000, 400_000, 4_000, &format!("The {} reaches its finest form.", name)),
        ],
        repair_knowledge_required: 500_000,
        repair_minerals_cost: 50,
        repair_parts_cost: 5,
        decay_per_year: 20_000,
    }
}

fn people(id: &str, name: &str, ideology: i64, tends: &str, rivals: &[&str], allies: &[&str]) -> FactionDef {
    FactionDef {
        id: id.to_string(),
        name: name.to_string(),
        ideology,
        tends: tends.to_string(),
        ambient: strs(&[&format!("{} keep the rhythm of the decks.", name)]),
        rivals: strs(rivals),
        allies: strs(allies),
    }
}

fn effect(log: &str) -> DilemmaEffect {
    DilemmaEffect {
        resource_delta: no_resources(),
        ship_delta: no_ship(),
        population_delta: no_people(),
        tradition_points: 0,
        body_horror_events: 0,
        existential_dread: 0,
        piracy_reputation: 0,
        log: log.to_string(),
    }
}

fn legacies() -> Vec<LegacyDef> {
    let mut protect_ok = effect("The archive is sealed and kept.");
    protect_ok.tradition_points = 10;
    let mut protect_bad = effect("The purge takes the stacks anyway.");
    protect_bad.resource_delta.food = -50;
    protect_bad.population_delta.morale = -50_000;
    let mut clinic_ok = effect("The clinic's grafts take.");
    clinic_ok.body_horror_events = 1;
    clinic_ok.population_delta.adaptation = 50_000;
    let mut clinic_bad = effect("The grafts reject.");
    clinic_bad.body_horror_events = 2;
    let raid = effect("The raid succeeds.");
    vec![
        LegacyDef {
            id: "preservers".to_string(),
            name: "Preservers".to_string(),
            dilemmas: vec![DilemmaDef {
                id: "archive_purge".to_string(),
                title: "The Archive Purge".to_string(),
                options: vec![DilemmaOption {
                    id: "protect".to_string(),
                    label: "Protect the archive".to_string(),
                    success_chance: 600_000,
                    success: protect_ok,
                    failure: protect_bad,
                    dominant_faction: String::new(),
                    dominant_faction_odds: 0,
                }],
            }],
        },
        LegacyDef {
            id: "adaptors".to_string(),
            name: "Adaptors".to_string(),
            dilemmas: vec![DilemmaDef {
                id: "gene_clinic".to_string(),
                title: "The Gene Clinic".to_string(),
                options: vec![DilemmaOption {
                    id: "open".to_string(),
                    label: "Open the clinic".to_string(),
                    success_chance: 650_000,
                    success: clinic_ok,
                    failure: clinic_bad,
                    dominant_faction: String::new(),
                    dominant_faction_odds: 0,
                }],
            }],
        },
        LegacyDef {
            id: "wanderers".to_string(),
            name: "Wanderers".to_string(),
            dilemmas: vec![DilemmaDef {
                id: "the_raid".to_string(),
                title: "The Raid".to_string(),
                options: vec![DilemmaOption {
                    id: "strike".to_string(),
                    label: "Strike the convoy".to_string(),
                    success_chance: 650_000,
                    success: raid.clone(),
                    failure: raid,
                    dominant_faction: String::new(),
                    dominant_faction_odds: 0,
                }],
            }],
        },
    ]
}

fn segment(kind: ContractPhase, years: u32) -> PhaseSegment {
    PhaseSegment { kind, years }
}

fn charter(id: &str, name: &str) -> ContractTemplate {
    ContractTemplate {
        id: id.to_string(),
        name: name.to_string(),
        objective: ContractObjective::Mining,
        target_duration_years: 340,
        phases: vec![
            segment(ContractPhase::Travel, 20),
            segment(ContractPhase::Operation, 300),
            segment(ContractPhase::Return, 20),
        ],
        success_metrics: vec![SuccessMetric {
            id: "done".to_string(),
            kind: MetricKind::MissionCompletion,
            name: "Mission".to_string(),
            weight: ONE,
            target: ONE,
        }],
        milestones: vec![],
        objective_target: 1_000,
        objective_unit: "tonnes".to_string(),
        tags: vec![],
        hazard: 0,
        objective_subsystem: String::new(),
        reward: ResourceDelta { credits: 5_000, energy: 0, minerals: 0, food: 0, influence: 0 },
        requires_faction_aboard: vec![],
        requires_consequence: vec![],
        forbidden_consequence: vec![],
        min_reputation: vec![],
        max_reputation: vec![],
        completion_reward: CompletionReward {
            resource: no_resources(),
            population: no_people(),
            subsystem_deltas: vec![],
            reputation_deltas: vec![],
            faction_approval_deltas: vec![],
            log: String::new(),
        },
        abandonment: Abandonment { reputation_deltas: vec![], log: String::new() },
        completion_consequence: String::new(),
        annual_toll: AnnualToll { resource: no_resources(), ship: no_ship(), population: no_people() },
        scheduled_beats: vec![],
    }
}

fn named(id: &str, delta: i64) -> NamedDelta {
    NamedDelta { id: id.to_string(), delta }
}

fn rep_gate(id: &str, threshold: i64) -> ReputationGate {
    ReputationGate { id: id.to_string(), threshold }
}

fn charters() -> Vec<ContractTemplate> {
    let mut survey = charter("deep_vein_survey", "Deep Vein Survey");
    survey.completion_consequence = "proved_the_veins".to_string();
    let mut sanctuary = charter("the_sanctuary_run", "The Sanctuary Run");
    sanctuary.min_reputation = vec![rep_gate("mercy", 700_000)];
    sanctuary.completion_reward.reputation_deltas = vec![named("mercy", 100_000)];
    sanctuary.completion_reward.faction_approval_deltas = vec![named("hearth_union", 150_000)];
    sanctuary.completion_reward.log = "The refugees step onto a new world.".to_string();
    sanctuary.abandonment = Abandonment {
        reputation_deltas: vec![named("mercy", -100_000), named("resolve", -100_000)],
        log: "The refugees are left behind.".to_string(),
    };
    let mut hard = charter("the_hard_contract", "The Hard Contract");
    hard.max_reputation = vec![rep_gate("mercy", 300_000)];
    hard.completion_reward.reputation_deltas = vec![named("mercy", -100_000)];
    hard.completion_reward.log = "The writ is enforced.".to_string();
    hard.abandonment = Abandonment {
        reputation_deltas: vec![named("mercy", 100_000), named("resolve", -100_000)],
        log: "The ship will not finish the cruel job.".to_string(),
    };
    let mut works = charter("the_karst_works", "The Karst Works");
    works.requires_consequence = strs(&["proved_the_veins"]);
    works.forbidden_consequence = strs(&["broke_a_bargain"]);
    works.completion_reward.subsystem_deltas =
        vec![SubsystemDelta { id: "engineering_bay".to_string(), condition: 0, knowledge: 200_000 }];
    works.completion_reward.log = "The works master extraction for good.".to_string();
    let mut writ = charter("the_seedbearers_writ", "The Seedbearers' Writ");
    writ.requires_faction_aboard = strs(&["verdant_kin"]);
    let founding = charter("founding_colony", "The Founding Colony");
    vec![survey, sanctuary, hard, works, writ, founding]
}

fn component(id: &str, kind: ComponentKind, cargo: i32, speed: i32, combat: i32) -> ShipComponent {
    ShipComponent {
        id: id.to_string(),
        kind,
        name: id.to_string(),
        stats: ComponentStats { cargo, crew_capacity: 0, speed, combat, fuel_regen: 0 },
    }
}

fn data() -> GameData {
    GameData {
        config: config(),
        ship_components: vec![
            component("colony_barge", ComponentKind::Hull, 200, 0, 0),
            component("ion_drive", ComponentKind::Engine, 0, 2, 0),
            component("mass_driver", ComponentKind::Weapon, 0, 0, 5),
        ],
        subsystems: vec![
            module("medical_bay", "Medical Bay", "biology_medical"),
            module("agriculture", "Hydroponic Decks", "survival"),
            module("engineering_bay", "Engineering Bay", "engineering"),
            module("education_culture", "Culture Archive", "legacy_drift"),
            module("life_support_habitat", "Life Support Plant", "ethics"),
            module("security", "Security Corps", "diplomacy"),
        ],
        legacies: legacies(),
        factions: vec![
            people("hearth_union", "the Hearth Union", -200_000, "agriculture", &["steel_covenant"], &["verdant_kin"]),
            people("verdant_kin", "the Verdant Kin", 100_000, "agriculture", &["steel_covenant"], &["hearth_union"]),
            people("meridian_accord", "the Meridian Accord", 0, "security", &[], &[]),
            people("steel_covenant", "the Steel Covenant", 400_000, "engineering_bay", &["verdant_kin"], &[]),
            people("first_flame", "the Keepers of the First Flame", -600_000, "education_culture", &[], &[]),
            people("ascension_circle", "the Ascension Circle", 800_000, "medical_bay", &[], &[]),
        ],
        crew_archetypes: vec![
            CrewArchetype { id: "engineer".to_string(), name: "Chief Engineer".to_string() },
            CrewArchetype { id: "medic".to_string(), name: "Ship's Surgeon".to_string() },
        ],
        contracts: charters(),
        events: vec![],
        member_names: strs(&["Ada", "Bram", "Cato", "Dara", "Eun", "Fenn"]),
    }
}

fn member(id: u32, name: &str, age: u32, leadership: u32, is_leader: bool) -> DynastyMember {
    DynastyMember { id, name: name.to_string(), age, leadership, is_leader }
}

fn faction(id: &str, members: u32) -> FactionState {
    FactionState {
        faction_id: id.to_string(),
        members,
        status: FactionStatus::Aboard,
        approval: default_approval(),
        mood_band: 0,
    }
}

fn fresh_module(id: &str) -> SubsystemState {
    SubsystemState { id: id.to_string(), tier: 0, condition: ONE, knowledge: 800_000 }
}

fn campaign(legacy: &str, seed: u64) -> SimState {
    SimState {
        rolls: tape(seed),
        year: 0,
        month_clock: 0,
        last_event_month_clock: 0,
        market: Market {
            entries: vec![
                MarketEntry { resource: TradeResource::Energy, price: 2_000_000, trend: 0 },
                MarketEntry { resource: TradeResource::Minerals, price: 3_000_000, trend: 0 },
                MarketEntry { resource: TradeResource::Food, price: 1_500_000, trend: 0 },
                MarketEntry { resource: TradeResource::Influence, price: 10_000_000, trend: 0 },
            ],
            impact_per_unit: 200,
        },
        resources: ResourceState { credits: 2_000, energy: 500, minerals: 500, food: 2_000, influence: 100 },
        ship: ShipState {
            hull_integrity: ONE,
            life_support: ONE,
            fuel: ONE,
            spare_parts: 20,
            hull: "colony_barge".to_string(),
            engine: "ion_drive".to_string(),
            weapon: None,
            salvage: vec![],
        },
        population: PopulationState {
            count: 1_000,
            morale: 700_000,
            unity: 700_000,
            stability: 700_000,
            legacy_loyalty: 800_000,
            adaptation: 0,
            cultural_drift: 0,
        },
        legacy: LegacyTrack {
            legacy_id: legacy.to_string(),
            tradition_points: 50,
            body_horror_events: 0,
            existential_dread: 0,
            piracy_reputation: 0,
        },
        dynasty: Dynasty {
            members: vec![
                member(1, "Ada", 45, 7, true),
                member(2, "Bram", 30, 8, false),
                member(3, "Cato", 22, 4, false),
                member(4, "Dara", 10, 3, false),
            ],
            designated_heir: None,
            extinct: false,
            generation: 1,
            years_since_generation: 0,
            births_this_generation: 0,
            next_member_id: 5,
            leader_reign_years: 0,
            long_reign_marked: false,
            dynasty_crisis_marked: false,
        },
        crew: vec![
            CrewMember { id: 1, name: "Oren".to_string(), age: 35, archetype_id: "engineer".to_string() },
            CrewMember { id: 2, name: "Sela".to_string(), age: 41, archetype_id: "medic".to_string() },
        ],
        contract: None,
        pending_dilemma: None,
        pending_event: None,
        log: vec![],
        factions: vec![faction("hearth_union", 400), faction("verdant_kin", 350), faction("meridian_accord", 250)],
        consequences: vec![],
        reputation: vec![],
        subsystems: vec![
            fresh_module("medical_bay"),
            fresh_module("agriculture"),
            fresh_module("engineering_bay"),
            fresh_module("education_culture"),
            fresh_module("life_support_habitat"),
            fresh_module("security"),
        ],
        event_fire_counts: vec![],
        lean_food_years: 0,
        fat_food_years: 0,
        scheduled_events: vec![],
        production: ProductionRates {
            credits: 100 * ONE,
            energy: 80 * ONE,
            minerals: 60 * ONE,
            food: 1_100 * ONE,
            influence: 10 * ONE,
        },
        stalled_months: 0,
        fuel_stalled_this_year: false,
        fuel_stall_years: 0,
        fuel_scooped_accum: 0,
        delegation: vec![],
        subsystem_beats_fired: vec![],
        hull_beat_band: 0,
        reputation_beat_band: 0,
        depopulation_beats_fired: 0,
        founding_beat_fired: false,
        last_dominant_faction: String::new(),
    }
}

fn module_mut<'a>(sim: &'a mut SimState, id: &str) -> &'a mut SubsystemState {
    sim.subsystems.iter_mut().find(|s| s.id == id).unwrap()
}

fn module_of<'a>(sim: &'a SimState, id: &str) -> &'a SubsystemState {
    sim.subsystems.iter().find(|s| s.id == id).unwrap()
}

fn approval_of(sim: &SimState, id: &str) -> i64 {
    sim.factions.iter().find(|f| f.faction_id == id).unwrap().approval
}

fn set_reputation(sim: &mut SimState, id: &str, value: i64) {
    match sim.reputation.iter_mut().find(|r| r.id == id) {
        Some(r) => r.value = value,
        None => sim.reputation.push(ReputationEntry { id: id.to_string(), value }),
    }
}

fn charter_of(data: &GameData, id: &str) -> ContractTemplate {
    data.contracts.iter().find(|c| c.id == id).unwrap().clone()
}
