#![allow(dead_code, unused_imports)]

use stellar_legacy::config::{
    CampaignSkeletonConfig, CrewConfig, FailureRiskConfig, FlavorConfig, GameConfig, MortalityConfig, ProvisioningConfig, RealTimeConfig,
    RepairConfig, ShipConfig, SubsystemBeat, SubsystemsConfig, VoyageDriftConfig,
};
use stellar_legacy::data::{
    Abandonment, AnnualToll, ApprovalCeiling, ApprovalFloor, CompletionReward, Complication, ComponentKind, ComponentStats,
    ContractObjective, ContractPhase, ContractTemplate, CrewArchetype, DilemmaDef, DilemmaEffect, DilemmaOption,
    EventCategory, EventOutcome, EventTemplate, FactionDef, FactionLossKind, Followup, GameData, KnowledgeFloor,
    LegacyDef, MetricKind, NamedDelta, OutcomeAvailability, PhaseSegment, ReputationGate, ScheduledBeat, ShipComponent,
    SubsystemDef, SubsystemDelta, SubsystemGate, SuccessMetric, TierDef,
};
use stellar_legacy::deltas::{PopulationDelta, ResourceDelta, ShipDelta};
use stellar_legacy::rolls::Rolls;
use stellar_legacy::state::{
    default_approval, CrewMember, Dynasty, DynastyMember, FactionState, FactionStatus, LegacyTrack, Market,
    MarketEntry, PendingDilemma, PendingEvent, PopulationState, ProductionRates, ReputationEntry, ResourceState, ShipState, SimState,
    SubsystemState, TradeResource,
};

use stellar_legacy::contract::start_contract;
use stellar_legacy::event_resolver::{
    active_complication, available_outcome_indices, category_weights, event_chance, impact_range,
    outcome_available, outcome_pop_impact_range, passes_gate, roll_event, roll_event_in_family,
    rolled_pop_count, shown_description,
};
use stellar_legacy::outcome::{apply_outcome, auto_resolve, score_outcome};

// ---------------------------------------------------------------- the head-count band

#[test]
fn impact_range_bands_large_deltas_and_leaves_small_ones_exact() {
    let cfg = RealTimeConfig { impact_variance: 400_000, impact_min_magnitude_for_range: 20 };
    assert_eq!(impact_range(-8, cfg), None);
    assert_eq!(impact_range(19, cfg), None);
    assert_eq!(impact_range(-300, cfg), Some((-420, -180)));
    assert_eq!(impact_range(500, cfg), Some((300, 700)));
}

#[test]
fn rolled_pop_count_stays_within_its_band() {
    let cfg = RealTimeConfig { impact_variance: 400_000, impact_min_magnitude_for_range: 20 };
    let mut rolls = tape(42);
    assert_eq!(rolled_pop_count(-8, cfg, &mut rolls), -8);
    for _ in 0..200 {
        let rolled = rolled_pop_count(-300, cfg, &mut rolls);
        assert!((-420..=-180).contains(&rolled), "rolled {} outside [-420, -180]", rolled);
    }
}

// ---------------------------------------------------------------- gates

#[test]
fn a_cultural_drift_gate_holds_a_template_until_the_drift_arrives() {
    let mut sim = campaign("adaptors", 1);
    let mut schism = event("the_schism_deepens", "legacy_drift");
    schism.min_cultural_drift = 600_000;
    assert_eq!(schism.min_cultural_drift, 600_000);

    sim.population.cultural_drift = 200_000;
    assert!(!passes_gate(&sim, &schism), "the schism stays out of the pool below its drift gate");
    sim.population.cultural_drift = 700_000;
    assert!(passes_gate(&sim, &schism), "the schism enters the pool once drift is high enough");
}

#[test]
fn a_faction_approval_floor_gates_a_gift_only_to_a_delighted_people() {
    let mut sim = campaign("preservers", 1);
    let mut feast = event("the_hearths_feast", "diplomacy");
    feast.faction_approval_above = vec![ApprovalFloor { id: "hearth_union".to_string(), at_least: 800_000 }];
    assert!(sim.is_faction_aboard("hearth_union"), "the founding set carries the Hearth");

    assert!(!passes_gate(&sim, &feast), "a merely-content people opens no tables");
    for faction in &mut sim.factions {
        if faction.faction_id == "hearth_union" {
            faction.approval = 900_000;
        }
    }
    assert!(passes_gate(&sim, &feast), "a delighted people offers its feast");
}

#[test]
fn the_dynasty_crisis_gate_waits_for_a_dwindled_line() {
    let mut sim = campaign("preservers", 1);
    let mut evt = event("the_last_of_the_line", "legacy_drift");
    evt.max_dynasty_size = 2;
    assert!(!passes_gate(&sim, &evt), "a healthy founding dynasty is no crisis");
    sim.dynasty.members.truncate(2);
    assert!(passes_gate(&sim, &evt), "a dwindled line lets the reckoning surface");
}

#[test]
fn a_chain_payoff_waits_for_its_seeded_consequence() {
    let mut sim = campaign("preservers", 1);
    let mut payoff = event("the_unready_hour", "legacy_drift");
    payoff.requires_consequence = strs(&["unprepared_succession"]);
    assert!(!passes_gate(&sim, &payoff), "the unready hour stays out until a reign has run unprepared");
    sim.consequences.push("unprepared_succession".to_owned());
    assert!(passes_gate(&sim, &payoff), "once the consequence is on record, the reckoning can fire");
}

#[test]
fn a_worn_ship_complication_rides_only_when_its_state_holds() {
    let mut sim = campaign("preservers", 1);
    let mut fever = event("quiet_fever", "biology_medical");
    let mut ward = twist("no_ward_to_hold_it");
    ward.condition_below = vec![module_gate("medical_bay", 300_000)];
    fever.complications = vec![ward];

    module_mut(&mut sim, "medical_bay").condition = 800_000;
    assert!(active_complication(&sim, &fever).is_none(), "a working ward keeps the fever a nuisance");
    module_mut(&mut sim, "medical_bay").condition = 200_000;
    assert_eq!(
        active_complication(&sim, &fever).map(|c| c.id.as_str()),
        Some("no_ward_to_hold_it"),
        "a broken ward lets the fever turn deadly"
    );
}

fn trilemma(id: &str) -> EventTemplate {
    let mut e = event(id, "diplomacy");
    e.outcomes = vec![choice("first_path"), choice("second_path"), choice("third_path")];
    e
}

#[test]
fn trilemma_events_offer_a_genuinely_distinct_third_path() {
    let data = data();
    let mut tithe = event("tithe_demand", "diplomacy");
    let mut pay = choice("pay_the_tithe");
    pay.resource_delta.credits = -300;
    let mut run = choice("run_the_blockade");
    run.ship_delta.hull_integrity = -100_000;
    let mut serve = choice("offer_service");
    serve.resource_delta.influence = 20;
    serve.population_delta.morale = -20_000;
    tithe.outcomes = vec![pay, run, serve];
    let events = vec![
        tithe.clone(),
        trilemma("micrometeoroid_storm"),
        trilemma("cultural_schism"),
        trilemma("skills_drought"),
        trilemma("the_wary_frontier"),
    ];
    for e in &events {
        assert_eq!(e.outcomes.len(), 3, "{} should be a trilemma now", e.id);
    }

    let idx = position(&tithe, "offer_service");
    let mut sim = campaign("preservers", 12);
    let credits_before = sim.resources.credits;
    let influence_before = sim.resources.influence;
    let hull_before = sim.ship.hull_integrity;
    apply_outcome(&mut sim, &data, &tithe, idx);
    assert_eq!(sim.resources.credits, credits_before, "offering service costs no treasury");
    assert!(sim.resources.influence > influence_before, "competence-for-passage earns standing");
    assert_eq!(sim.ship.hull_integrity, hull_before, "no shots fired, no hull lost");
}

#[test]
fn a_consequence_gate_holds_the_payoff_until_the_setup_choice_fires() {
    let mut sim = campaign("adaptors", 5);
    let mut payoff = event("the_ward_reopens", "biology_medical");
    payoff.requires_consequence = strs(&["sealed_ward"]);
    payoff.min_generation = 4;
    assert_eq!(payoff.requires_consequence, vec!["sealed_ward".to_string()]);
    sim.dynasty.generation = 5;

    assert!(!passes_gate(&sim, &payoff), "the reopening stays out of the pool before the ward was ever sealed");
    sim.consequences.push("sealed_ward".to_string());
    assert!(passes_gate(&sim, &payoff), "sealing the ward unlocks the reopening decades later");
}

fn bond_events() -> (EventTemplate, EventTemplate) {
    let mut seed = event("the_mortgaged_passage", "diplomacy");
    let mut take = choice("take_the_bond");
    take.resource_delta.credits = 1_000;
    take.schedule_followup = followup("the_collectors_return", 15);
    let mut decline = choice("decline_the_bond");
    decline.resource_delta.food = -100;
    seed.outcomes = vec![take, decline];
    let mut payoff = event("the_collectors_return", "diplomacy");
    payoff.scheduled_only = true;
    (seed, payoff)
}

#[test]
fn a_mortgaged_bond_comes_due_on_the_named_clock() {
    let data = data();
    let mut sim = campaign("preservers", 44);
    let (seed, payoff) = bond_events();
    assert!(payoff.scheduled_only, "the collectors' return must never roll on its own");
    assert!(!passes_gate(&sim, &payoff));
    let take = position(&seed, "take_the_bond");
    let delay = seed.outcomes[take].schedule_followup.as_ref().unwrap().delay_years;

    let year0 = sim.year();
    apply_outcome(&mut sim, &data, &seed, take);
    assert_eq!(sim.scheduled_events.len(), 1, "the bond queues its reckoning");
    assert_eq!(sim.scheduled_events[0].template_id, "the_collectors_return");
    assert_eq!(sim.scheduled_events[0].fire_year, year0 + delay);

    let mut clean = campaign("preservers", 45);
    let decline = position(&seed, "decline_the_bond");
    apply_outcome(&mut clean, &data, &seed, decline);
    assert!(clean.scheduled_events.is_empty(), "declining the bond leaves no debt on the clock");
}

#[test]
fn the_ghost_signal_schedules_its_own_appointed_hour() {
    let data = data();
    let mut sim = campaign("wanderers", 41);
    sim.dynasty.generation = 2;
    let mut ghost = event("ghost_signal", "mystery");
    let mut answer = choice("answer_the_ghost");
    answer.schedule_followup = followup("the_appointed_signal", 40);
    ghost.outcomes = vec![answer, choice("let_it_fade")];
    let mut payoff = event("the_appointed_signal", "mystery");
    payoff.scheduled_only = true;
    assert!(payoff.scheduled_only);
    let answer = position(&ghost, "answer_the_ghost");
    let delay = ghost.outcomes[answer].schedule_followup.as_ref().unwrap().delay_years;

    let year0 = sim.year();
    apply_outcome(&mut sim, &data, &ghost, answer);
    assert_eq!(sim.scheduled_events.len(), 1, "answering queues the payoff");
    assert_eq!(sim.scheduled_events[0].template_id, "the_appointed_signal");
    assert_eq!(sim.scheduled_events[0].fire_year, year0 + delay);
}

#[test]
fn deferred_maintenance_comes_due_a_generation_on() {
    let mut sim = campaign("preservers", 8);
    let mut bill = event("the_bill_comes_due", "engineering");
    bill.requires_consequence = strs(&["deferred_maintenance"]);
    bill.min_generation = 3;
    assert_eq!(bill.requires_consequence, vec!["deferred_maintenance".to_string()]);
    sim.dynasty.generation = 5;

    assert!(!passes_gate(&sim, &bill), "no reckoning for a ship that never deferred");
    sim.consequences.push("deferred_maintenance".to_string());
    assert!(passes_gate(&sim, &bill), "the deferred ledger comes due once it is on record");
}

#[test]
fn a_charted_dearth_arrives_on_its_date_softened_only_if_provisioned() {
    let data = data();
    let mut sim = campaign("preservers", 33);
    let mut setup = event("the_charted_dearth", "survival");
    let mut lay_in = choice("lay_in_stores");
    lay_in.resource_delta.food = -300;
    lay_in.long_term_consequences = strs(&["laid_in_for_dearth"]);
    lay_in.schedule_followup = followup("the_dearth_arrives", 20);
    let mut trust = choice("trust_the_slack");
    trust.schedule_followup = followup("the_dearth_arrives", 20);
    setup.outcomes = vec![lay_in, trust];
    let mut payoff = event("the_dearth_arrives", "survival");
    payoff.scheduled_only = true;
    let mut relief = twist("the_stores_hold");
    relief.requires_consequence = strs(&["laid_in_for_dearth"]);
    relief.resource_delta.food = 400;
    payoff.complications = vec![relief];
    assert!(payoff.scheduled_only);
    let comp = payoff
        .complications
        .iter()
        .find(|c| c.requires_consequence.contains(&"laid_in_for_dearth".to_string()))
        .unwrap()
        .clone();

    let lay_in = position(&setup, "lay_in_stores");
    let delay = setup.outcomes[lay_in].schedule_followup.as_ref().unwrap().delay_years;
    let year0 = sim.year();
    apply_outcome(&mut sim, &data, &setup, lay_in);
    assert_eq!(sim.scheduled_events[0].template_id, "the_dearth_arrives");
    assert_eq!(sim.scheduled_events[0].fire_year, year0 + delay);
    assert!(sim.consequences.contains(&"laid_in_for_dearth".to_string()));
    assert!(active_complication(&sim, &payoff).is_some_and(|c| c.id == comp.id));

    let mut unready = campaign("preservers", 33);
    assert!(active_complication(&unready, &payoff).is_none(), "an unprovisioned ship meets the dearth bare");
    let trust = position(&setup, "trust_the_slack");
    apply_outcome(&mut unready, &data, &setup, trust);
    assert_eq!(sim.scheduled_events.len(), 1);
    assert!(!unready.consequences.contains(&"laid_in_for_dearth".to_string()));
}

#[test]
fn a_famine_can_be_answered_by_slipping_the_mission_or_holding_to_it() {
    let data = data();
    let mut sim = campaign("preservers", 29);
    let mut fallow = event("the_fallow_season", "survival");
    fallow.phases = vec![ContractPhase::Operation];
    fallow.food_below = Some(200);
    let mut divert = choice("divert_the_crews");
    divert.resource_delta.food = 300;
    divert.objective_progress_delta = -100_000;
    let mut hold = choice("hold_to_the_work");
    hold.population_delta.morale = -50_000;
    fallow.outcomes = vec![divert, hold];

    let mut active = start_contract(&charter_of(&data, "deep_vein_survey"), &sim);
    active.phase = ContractPhase::Operation;
    active.objective_progress = active.objective_target / 2;
    sim.contract = Some(active);
    let famine = fallow.food_below.unwrap();
    sim.resources.food = famine + 1;
    assert!(!passes_gate(&sim, &fallow), "a stocked larder holds no dilemma");
    sim.resources.food = famine - 1;
    assert!(passes_gate(&sim, &fallow), "a real shortfall on station forces it");

    let obj_before = sim.contract.as_ref().unwrap().objective_progress;
    let food_before = sim.resources.food;

    let mut diverted = sim.clone();
    apply_outcome(&mut diverted, &data, &fallow, position(&fallow, "divert_the_crews"));
    assert!(diverted.resources.food > food_before, "diverting the crews feeds the ship");
    assert!(diverted.contract.as_ref().unwrap().objective_progress < obj_before);

    let mut held = sim.clone();
    apply_outcome(&mut held, &data, &fallow, position(&fallow, "hold_to_the_work"));
    assert_eq!(held.contract.as_ref().unwrap().objective_progress, obj_before);
}

#[test]
fn a_shortage_triage_sours_the_deck_that_bears_the_cut() {
    let data = data();
    let mut sim = campaign("preservers", 23);
    let smallest_id = sim
        .factions
        .iter()
        .filter(|f| f.is_aboard())
        .min_by(|a, b| a.members.cmp(&b.members).then_with(|| a.faction_id.cmp(&b.faction_id)))
        .unwrap()
        .faction_id
        .clone();
    let before = approval_of(&sim, &smallest_id);

    let mut thin = event("the_thin_table", "survival");
    thin.food_below = Some(150);
    let mut share = choice("share_evenly");
    share.population_delta.morale = -30_000;
    let mut cut = choice("cut_the_smallest");
    cut.faction_approval_smallest = -200_000;
    thin.outcomes = vec![share, cut];

    let famine = thin.food_below.unwrap();
    sim.resources.food = famine + 1;
    assert!(!passes_gate(&sim, &thin), "a stocked larder is not triaged");
    sim.resources.food = famine - 1;
    assert!(passes_gate(&sim, &thin), "a real shortfall forces the choice");

    let mut fair = sim.clone();
    apply_outcome(&mut fair, &data, &thin, position(&thin, "share_evenly"));
    assert_eq!(approval_of(&fair, &smallest_id), before, "an equal cut sours no one in particular");

    apply_outcome(&mut sim, &data, &thin, position(&thin, "cut_the_smallest"));
    assert!(approval_of(&sim, &smallest_id) < before, "the deck that bore the cut remembers it");
}

#[test]
fn faction_approval_gates_a_slighted_peoples_withdrawal() {
    let data = data();
    let mut sim = campaign("preservers", 19);
    sim.dynasty.generation = 4;
    if sim.factions.iter().all(|f| f.faction_id != "first_flame") {
        sim.factions.push(faction("first_flame", 300));
        sim.population.count += 300;
    }
    let flame_approval = |sim: &SimState| sim.factions.iter().find(|f| f.faction_id == "first_flame").map(|f| f.approval);
    assert_eq!(flame_approval(&sim), Some(500_000), "a people launches neutral");

    let mut petition = event("the_flame_petition", "ethics");
    petition.requires_factions_aboard = strs(&["first_flame"]);
    let mut hold = choice("hold_the_line");
    hold.faction_approval_deltas = vec![named("first_flame", -150_000)];
    let mut grant = choice("grant_the_rite");
    grant.faction_approval_deltas = vec![named("first_flame", 150_000)];
    petition.outcomes = vec![hold, grant];
    let mut withdrawal = event("the_flame_withdrawal", "ethics");
    withdrawal.min_generation = 3;
    withdrawal.faction_approval_below = vec![ApprovalCeiling { id: "first_flame".to_string(), below: 250_000 }];
    let mut beg = choice("beg_them_stay");
    beg.resource_delta.influence = -20;
    beg.faction_approval_deltas = vec![named("first_flame", 300_000)];
    let mut go = choice("let_them_go");
    go.faction_loss = Some(FactionLossKind::Departure);
    go.faction_loss_id = Some("first_flame".to_string());
    withdrawal.outcomes = vec![beg, go];

    assert!(passes_gate(&sim, &petition), "the Keepers can always petition");
    assert!(!passes_gate(&sim, &withdrawal), "a content people does not withdraw");

    let slight = position(&petition, "hold_the_line");
    apply_outcome(&mut sim, &data, &petition, slight);
    assert!(flame_approval(&sim).unwrap() < 500_000, "the slight is remembered");
    assert!(!passes_gate(&sim, &withdrawal), "one slight is not yet a departure");

    apply_outcome(&mut sim, &data, &petition, slight);
    assert!(passes_gate(&sim, &withdrawal), "a people slighted past the threshold moves to leave");

    let mut kept = sim.clone();
    apply_outcome(&mut kept, &data, &withdrawal, position(&withdrawal, "beg_them_stay"));
    assert!(kept.is_faction_aboard("first_flame"), "bought back aboard");
    assert!(!passes_gate(&kept, &withdrawal), "goodwill restored closes the withdrawal");

    apply_outcome(&mut sim, &data, &withdrawal, position(&withdrawal, "let_them_go"));
    assert!(!sim.is_faction_aboard("first_flame"), "the slighted people departs");
}

// ---------------------------------------------------------------- charters and who runs the ship

fn tagged(id: &str, objective: ContractObjective, tags: &[&str]) -> ContractTemplate {
    let mut c = charter(id, id);
    c.objective = objective;
    c.tags = strs(tags);
    c
}

#[test]
fn the_embassy_pool_colors_only_inhabited_charters() {
    let mut sim = campaign("preservers", 31);
    let embassy = tagged("hearthfall_accord", ContractObjective::Diplomacy, &["inhabited"]);
    let tow = tagged("the_long_tow", ContractObjective::Salvage, &[]);
    assert_eq!(embassy.objective, ContractObjective::Diplomacy);
    assert_eq!(tow.objective, ContractObjective::Salvage);

    let mut residency = event("the_long_residency", "diplomacy");
    residency.requires_charter_tag = strs(&["inhabited"]);
    residency.phases = vec![ContractPhase::Operation];
    residency.min_generation = 5;
    assert_eq!(residency.requires_charter_tag, vec!["inhabited".to_string()]);

    assert!(embassy.tags.contains(&"inhabited".to_string()));
    let mut active = start_contract(&embassy, &sim);
    active.phase = ContractPhase::Operation;
    sim.contract = Some(active);
    sim.dynasty.generation = 6;
    assert!(passes_gate(&sim, &residency), "the long residency fires on an inhabited charter, on station");

    sim.contract.as_mut().unwrap().phase = ContractPhase::Travel;
    assert!(!passes_gate(&sim, &residency), "there is no residency until the ship is living among them");

    let mining = charter_of(&data(), "deep_vein_survey");
    assert!(!mining.tags.contains(&"inhabited".to_string()));
    let mut active = start_contract(&mining, &sim);
    active.phase = ContractPhase::Operation;
    sim.contract = Some(active);
    assert!(!passes_gate(&sim, &residency), "a cinder-vein camp has no host people");
}

#[test]
fn the_stellar_hazard_pool_colors_only_its_destination() {
    let mut sim = campaign("adaptors", 47);
    let mut flare = event("the_coronal_flare", "science_anomaly");
    flare.requires_charter_tag = strs(&["stellar_hazard"]);
    flare.phases = vec![ContractPhase::Operation];
    assert_eq!(flare.requires_charter_tag, vec!["stellar_hazard".to_string()]);

    let dive = tagged("the_sunward_dive", ContractObjective::Research, &["stellar_hazard"]);
    assert!(dive.tags.contains(&"stellar_hazard".to_string()));
    let mut active = start_contract(&dive, &sim);
    active.phase = ContractPhase::Operation;
    sim.contract = Some(active);
    assert!(passes_gate(&sim, &flare), "on station near the star, it fires");

    sim.contract.as_mut().unwrap().phase = ContractPhase::Travel;
    assert!(!passes_gate(&sim, &flare), "the flare only reaches on-station");

    let veiled = tagged("veiled_expanse_survey", ContractObjective::Research, &["deep_space"]);
    assert!(!veiled.tags.contains(&"stellar_hazard".to_string()));
    let mut active = start_contract(&veiled, &sim);
    active.phase = ContractPhase::Operation;
    sim.contract = Some(active);
    assert!(!passes_gate(&sim, &flare), "a starless survey never flares");
}

#[test]
fn a_charter_tag_gate_keys_an_event_to_its_destination() {
    let mut sim = campaign("adaptors", 7);
    let mut alarm = event("boarding_alarm", "diplomacy");
    alarm.requires_charter_tag = strs(&["hostile_space"]);
    assert_eq!(alarm.requires_charter_tag, vec!["hostile_space".to_string()]);

    assert!(!passes_gate(&sim, &alarm));

    let patrol = tagged("warden_patrol", ContractObjective::Rescue, &["hostile_space"]);
    assert!(patrol.tags.contains(&"hostile_space".to_string()));
    let mut active = start_contract(&patrol, &sim);
    active.phase = ContractPhase::Travel;
    sim.contract = Some(active);
    assert!(passes_gate(&sim, &alarm), "a hostile-space charter unlocks the boarding scare");

    let peaceful = tagged("seedfall", ContractObjective::Colonize, &[]);
    assert!(!peaceful.tags.contains(&"hostile_space".to_string()));
    let mut active = start_contract(&peaceful, &sim);
    active.phase = ContractPhase::Travel;
    sim.contract = Some(active);
    assert!(!passes_gate(&sim, &alarm));
}

#[test]
fn a_dominant_faction_gate_colors_events_by_who_runs_the_ship() {
    let mut sim = campaign("adaptors", 9);
    sim.factions.push(faction("ascension_circle", 100));
    let mut rewriting = event("the_rewriting", "biology_medical");
    rewriting.requires_dominant_faction = "ascension_circle".to_string();
    rewriting.min_generation = 2;
    assert_eq!(rewriting.requires_dominant_faction, "ascension_circle");
    sim.dynasty.generation = 3;

    for f in &mut sim.factions {
        f.members = if f.faction_id == "ascension_circle" { 900 } else { 50 };
    }
    assert_eq!(sim.dominant_faction_id().as_deref(), Some("ascension_circle"));
    assert!(passes_gate(&sim, &rewriting));

    for f in &mut sim.factions {
        f.members = if f.faction_id == "ascension_circle" { 50 } else { 900 };
    }
    assert_ne!(sim.dominant_faction_id().as_deref(), Some("ascension_circle"));
    assert!(!passes_gate(&sim, &rewriting));
}

#[test]
fn a_knowledge_crisis_gates_on_low_know_how_and_its_outcome_reteaches_it() {
    let data = data();
    let mut sim = campaign("adaptors", 11);
    let mut last = event("the_last_engineer", "engineering");
    last.knowledge_below = vec![module_gate("engineering_bay", 400_000)];
    let mut apprentice = choice("take_an_apprentice");
    apprentice.subsystem_deltas =
        vec![SubsystemDelta { id: "engineering_bay".to_string(), condition: 0, knowledge: 350_000 }];
    last.outcomes = vec![apprentice, choice("let_the_craft_go")];
    assert_eq!(last.knowledge_below[0].id, "engineering_bay");

    module_mut(&mut sim, "engineering_bay").knowledge = 800_000;
    assert!(!passes_gate(&sim, &last));
    module_mut(&mut sim, "engineering_bay").knowledge = 200_000;
    assert!(passes_gate(&sim, &last));

    let before = module_of(&sim, "engineering_bay").knowledge;
    apply_outcome(&mut sim, &data, &last, 0);
    let after = module_of(&sim, "engineering_bay").knowledge;
    assert!(after > before, "the teaching succession restores lost know-how ({} -> {})", before, after);
}

#[test]
fn the_wandering_mind_gates_on_lost_know_how_and_its_choices_diverge() {
    let data = data();
    let mut sim = campaign("adaptors", 3);
    let mut mind = event("the_wandering_mind", "mystery");
    mind.knowledge_below = vec![module_gate("engineering_bay", 400_000)];
    mind.min_generation = 2;
    let mut trust = choice("trust_the_old_mind");
    trust.subsystem_deltas = vec![SubsystemDelta { id: "engineering_bay".to_string(), condition: 0, knowledge: -100_000 }];
    let mut rebuild = choice("rebuild_by_hand");
    rebuild.subsystem_deltas = vec![SubsystemDelta { id: "engineering_bay".to_string(), condition: 0, knowledge: 200_000 }];
    mind.outcomes = vec![trust, rebuild];
    assert_eq!(mind.knowledge_below[0].id, "engineering_bay");
    sim.dynasty.generation = 3;

    module_mut(&mut sim, "engineering_bay").knowledge = 800_000;
    assert!(!passes_gate(&sim, &mind));
    module_mut(&mut sim, "engineering_bay").knowledge = 200_000;
    assert!(passes_gate(&sim, &mind));

    let mut trusting = sim.clone();
    apply_outcome(&mut trusting, &data, &mind, 0);
    let mut rebuilding = sim.clone();
    apply_outcome(&mut rebuilding, &data, &mind, 1);
    assert!(module_of(&trusting, "engineering_bay").knowledge < module_of(&rebuilding, "engineering_bay").knowledge);
}

#[test]
fn an_assimilation_beat_folds_a_people_in_without_losing_them() {
    let data = data();
    let mut sim = campaign("preservers", 55);
    sim.dynasty.generation = 6;
    sim.population.cultural_drift = 500_000;
    let mut hearth = event("the_green_hearth", "diplomacy");
    hearth.requires_factions_aboard = strs(&["hearth_union", "verdant_kin"]);
    hearth.min_generation = 4;
    let mut bless = choice("bless_the_union");
    bless.faction_merge_id = Some("verdant_kin".to_string());
    hearth.outcomes = vec![choice("keep_them_apart"), bless];

    assert!(passes_gate(&sim, &hearth), "the union fires with both aboard");
    let bless = hearth
        .outcomes
        .iter()
        .position(|o| o.faction_merge_id.as_deref() == Some("verdant_kin"))
        .expect("the green hearth can bless the union");

    let heads_before = sim.population.count;
    let kin_members = sim.factions.iter().find(|f| f.faction_id == "verdant_kin").map(|f| f.members).unwrap();
    assert!(kin_members > 0);
    apply_outcome(&mut sim, &data, &hearth, bless);

    assert!(!sim.is_faction_aboard("verdant_kin"), "the merged people lose their separate name");
    assert!(sim.is_faction_aboard("hearth_union"), "the host people remain");
    assert_eq!(sim.population.count, heads_before, "a union keeps every soul aboard");
}

#[test]
fn a_friction_fracture_sheds_the_named_faction_and_its_craft() {
    let data = data();
    let mut sim = campaign("adaptors", 41);
    sim.factions = vec![faction("steel_covenant", 300), faction("verdant_kin", 400), faction("hearth_union", 300)];
    sim.dynasty.generation = 5;
    sim.population.cultural_drift = 600_000;
    let mut quarrel = event("the_forge_and_the_garden", "engineering");
    quarrel.requires_factions_aboard = strs(&["steel_covenant", "verdant_kin"]);
    let mut fracture = choice("let_it_break");
    fracture.faction_loss = Some(FactionLossKind::Schism);
    fracture.faction_loss_id = Some("steel_covenant".to_string());
    fracture.subsystem_deltas = vec![SubsystemDelta { id: "engineering_bay".to_string(), condition: 0, knowledge: -200_000 }];
    quarrel.outcomes = vec![choice("broker_a_peace"), fracture];

    assert!(passes_gate(&sim, &quarrel), "the quarrel fires with both aboard");
    for f in &mut sim.factions {
        f.members = if f.faction_id == "steel_covenant" { 900 } else { 100 };
    }
    let before = module_of(&sim, "engineering_bay").knowledge;
    let fracture = quarrel
        .outcomes
        .iter()
        .position(|o| o.faction_loss_id.as_deref() == Some("steel_covenant"))
        .unwrap();
    apply_outcome(&mut sim, &data, &quarrel, fracture);

    assert!(!sim.is_faction_aboard("steel_covenant"), "the named faction departs even as the largest aboard");
    assert!(sim.is_faction_aboard("verdant_kin"), "the other quarreller stays");
    assert!(module_of(&sim, "engineering_bay").knowledge < before, "the machinists' craft leaves with them");
}

// ---------------------------------------------------------------- complications and who may choose what

fn storm() -> EventTemplate {
    let mut storm = event("micrometeoroid_storm", "engineering");
    storm.outcomes = vec![choice("seal_the_decks"), choice("ride_it_out"), choice("burn_for_cover")];
    let mut faith = twist("a_trial_of_faith");
    faith.requires_dominant_faction = "first_flame".to_string();
    faith.description_add = "The Keepers call the storm a trial of faith.".to_string();
    let mut soft = twist("soft_hands");
    soft.min_fat_food_years = 6;
    soft.description_add = "A crew raised on easy years has never drilled for this.".to_string();
    storm.complications = vec![faith, soft];
    storm
}

#[test]
fn a_faction_colored_complication_rides_only_under_its_faction() {
    let mut sim = campaign("preservers", 88);
    sim.factions.push(faction("first_flame", 100));
    let template = storm();
    let comp = template.complications.iter().find(|c| c.requires_dominant_faction == "first_flame").unwrap().clone();
    assert!(sim.is_faction_aboard("first_flame"), "seed campaign holds the Flame");

    for f in &mut sim.factions {
        f.members = if f.faction_id == "first_flame" { 50 } else { 900 };
    }
    assert_ne!(sim.dominant_faction_id().as_deref(), Some("first_flame"));
    assert!(active_complication(&sim, &template).is_none());

    for f in &mut sim.factions {
        f.members = if f.faction_id == "first_flame" { 900 } else { 50 };
    }
    assert_eq!(sim.dominant_faction_id().as_deref(), Some("first_flame"));
    assert_eq!(active_complication(&sim, &template).map(|c| &c.id), Some(&comp.id));
    assert!(shown_description(&sim, &template).contains("Keepers"));
}

#[test]
fn the_offered_road_reads_who_runs_the_ship() {
    let mut sim = campaign("preservers", 73);
    let mut road = event("the_offered_road", "exploration_first_contact");
    let mut bargain = choice("seek_a_deeper_bargain");
    bargain.availability.requires_dominant_faction = "ascension_circle".to_string();
    road.outcomes = vec![choice("keep_the_road"), choice("trade_the_archive"), bargain];
    let bargain = position(&road, "seek_a_deeper_bargain");

    assert!(available_outcome_indices(&sim, &road).contains(&0));
    assert!(available_outcome_indices(&sim, &road).len() >= 2);

    let mut hearth = faction("hearth_union", sim.population.count);
    hearth.approval = 500_000;
    sim.factions = vec![hearth];
    assert!(!available_outcome_indices(&sim, &road).contains(&bargain));

    sim.factions[0].faction_id = "ascension_circle".to_string();
    assert!(available_outcome_indices(&sim, &road).contains(&bargain));
}

#[test]
fn a_dominant_faction_unlocks_a_choice_others_cannot_take() {
    let mut sim = campaign("preservers", 71);
    let mut wasting = event("the_wasting", "biology_medical");
    let mut cure = choice("rewrite_the_affliction");
    cure.availability.requires_dominant_faction = "ascension_circle".to_string();
    wasting.outcomes = vec![choice("quarantine"), choice("endure"), cure];
    let cure = position(&wasting, "rewrite_the_affliction");

    let set_dominant = |sim: &mut SimState, id: &str| {
        sim.factions = vec![faction(id, sim.population.count)];
    };

    set_dominant(&mut sim, "steel_covenant");
    assert!(!available_outcome_indices(&sim, &wasting).contains(&cure), "the germ-line cure needs the Ascension in charge");
    assert!(available_outcome_indices(&sim, &wasting).contains(&0), "the base choices are always offered");

    set_dominant(&mut sim, "ascension_circle");
    assert!(available_outcome_indices(&sim, &wasting).contains(&cure));
}

#[test]
fn a_cryo_ark_crisis_fires_only_on_the_ark_run() {
    let data = data();
    let mut sim = campaign("preservers", 61);
    let mut bank = event("the_failing_bank", "survival");
    bank.requires_charter_tag = strs(&["cryo_ark"]);
    bank.phases = vec![ContractPhase::Travel];

    let mut ordinary = start_contract(&charter_of(&data, "deep_vein_survey"), &sim);
    ordinary.phase = ContractPhase::Travel;
    sim.contract = Some(ordinary);
    assert!(!passes_gate(&sim, &bank), "the failing bank does not surface on an ordinary run");

    let mut ark = start_contract(&tagged("the_ark_run", ContractObjective::Colonize, &["cryo_ark"]), &sim);
    ark.phase = ContractPhase::Travel;
    sim.contract = Some(ark);
    assert!(passes_gate(&sim, &bank), "the failing bank fires on the sleeper-ark in transit");
}

#[test]
fn a_seeded_payoff_waits_for_its_consequence_on_record() {
    let mut sim = campaign("preservers", 62);
    sim.dynasty.generation = 4;
    let mut drift_people = event("the_drift_people", "legacy_drift");
    drift_people.requires_consequence = strs(&["settled_into_the_drift"]);
    drift_people.min_generation = 3;

    assert!(!passes_gate(&sim, &drift_people), "the drift-people reckoning waits until the drift was chosen");
    sim.consequences.push("settled_into_the_drift".to_string());
    assert!(passes_gate(&sim, &drift_people), "settling into the drift on record opens its payoff");
}

#[test]
fn a_convergent_chain_needs_both_its_seeds_on_record() {
    let mut sim = campaign("preservers", 55);
    let mut untethered = event("the_untethered", "legacy_drift");
    untethered.requires_consequence = strs(&["founding_let_go", "purpose_turned_inward"]);
    untethered.min_generation = 5;
    sim.dynasty.generation = 6;

    assert!(!passes_gate(&sim, &untethered), "no releasing on record, no reckoning");
    sim.consequences.push("founding_let_go".to_string());
    assert!(!passes_gate(&sim, &untethered), "one releasing alone is not enough");
    sim.consequences.push("purpose_turned_inward".to_string());
    assert!(passes_gate(&sim, &untethered), "both releasings on record open the untethered reckoning");
}

#[test]
fn a_soft_ship_complication_rides_only_after_a_long_plenty() {
    let mut sim = campaign("preservers", 41);
    let template = storm();
    let comp = template.complications.iter().find(|c| c.min_fat_food_years > 0).unwrap().clone();
    sim.factions = vec![faction("steel_covenant", sim.population.count)];

    sim.fat_food_years = comp.min_fat_food_years - 1;
    assert!(active_complication(&sim, &template).is_none());

    sim.fat_food_years = comp.min_fat_food_years;
    assert_eq!(active_complication(&sim, &template).map(|c| &c.id), Some(&comp.id));
    assert!(shown_description(&sim, &template).contains("easy years"));
}

#[test]
fn a_reputation_gated_complication_rides_only_on_a_ship_of_that_name() {
    let mut sim = campaign("preservers", 91);
    let mut asylum = event("asylum_request", "diplomacy");
    let mut named_twist = twist("they_came_for_your_name");
    named_twist.min_reputation = vec![rep_gate("mercy", 620_000)];
    named_twist.description_add = "They steered for this hull because it is known to be kind.".to_string();
    asylum.complications = vec![named_twist];
    let comp = asylum.complications.iter().find(|c| c.min_reputation.iter().any(|g| g.id == "mercy")).unwrap().clone();

    assert!(sim.reputation("mercy") < 620_000);
    assert!(active_complication(&sim, &asylum).is_none());

    sim.adjust_reputation("mercy", 200_000);
    assert!(sim.reputation("mercy") >= 620_000);
    assert_eq!(active_complication(&sim, &asylum).map(|c| &c.id), Some(&comp.id));
    assert!(shown_description(&sim, &asylum).contains("kind"));
}

#[test]
fn an_event_with_two_complications_rides_the_first_that_matches() {
    let mut failure = event("system_failure", "engineering");
    let mut bay = twist("bay_already_failing");
    bay.condition_below = vec![module_gate("engineering_bay", 300_000)];
    let mut covenant = twist("covenant_takes_it_in_hand");
    covenant.requires_dominant_faction = "steel_covenant".to_string();
    failure.complications = vec![bay, covenant];
    assert_eq!(failure.complications.len(), 2);

    let mut ship = campaign("adaptors", 71);
    ship.factions = vec![faction("steel_covenant", 900), faction("hearth_union", 50), faction("meridian_accord", 50)];
    module_mut(&mut ship, "engineering_bay").condition = 900_000;
    assert_eq!(active_complication(&ship, &failure).map(|c| c.id.as_str()), Some("covenant_takes_it_in_hand"));

    let mut failing = ship.clone();
    module_mut(&mut failing, "engineering_bay").condition = 200_000;
    assert_eq!(
        active_complication(&failing, &failure).map(|c| c.id.as_str()),
        Some("bay_already_failing"),
        "the first matching complication takes precedence"
    );
}

#[test]
fn a_hazardous_charter_breeds_more_crises_than_a_quiet_one() {
    let data = data();
    let mut sim = campaign("preservers", 51);
    let calm = charter_of(&data, "deep_vein_survey");
    let mut dangerous = charter("hollow_fleet", "The Hollow Fleet");
    dangerous.hazard = 150_000;
    assert_eq!(calm.hazard, 0, "a survey is an ordinary route");
    assert!(dangerous.hazard > 0, "a derelict field is a risk profile");

    let crisis_weight = |sim: &SimState| {
        category_weights(sim, &data.config).iter().find(|(c, _)| *c == EventCategory::ImmediateCrisis).unwrap().1
    };

    sim.contract = Some(start_contract(&calm, &sim));
    let calm_w = crisis_weight(&sim);
    sim.contract = Some(start_contract(&dangerous, &sim));
    let dangerous_w = crisis_weight(&sim);

    assert!(dangerous_w > calm_w, "a hazardous route breeds more crises: {} vs {}", dangerous_w, calm_w);
    assert_eq!(dangerous_w - calm_w, dangerous.hazard, "the crisis bump is exactly the charter's hazard");
}

// ---------------------------------------------------------------- recurrence, earned choices, tolls

fn fire_count_of(sim: &SimState, id: &str) -> u32 {
    sim.event_fire_counts.iter().find(|f| f.id == id).map_or(0, |f| f.count)
}

#[test]
fn a_recurring_crisis_escalates_only_after_prior_occurrences() {
    let data = data();
    let mut sim = campaign("preservers", 37);
    let mut contagion = event("contagion", "biology_medical");
    let mut weary = twist("the_weariness");
    weary.min_prior_occurrences = 2;
    contagion.complications = vec![weary];
    let comp = contagion.complications.iter().find(|c| c.min_prior_occurrences >= 2).unwrap().clone();

    assert!(active_complication(&sim, &contagion).is_none(), "the first outbreak is just an outbreak");
    apply_outcome(&mut sim, &data, &contagion, 0);
    assert_eq!(fire_count_of(&sim, "contagion"), 1);
    assert!(active_complication(&sim, &contagion).is_none(), "the second is still not the weariness");
    apply_outcome(&mut sim, &data, &contagion, 0);
    assert_eq!(fire_count_of(&sim, "contagion"), 2);

    assert!(active_complication(&sim, &contagion).is_some_and(|c| c.id == comp.id));
    assert_ne!(shown_description(&sim, &contagion), contagion.description, "the escalation is visible before the choice");
}

#[test]
fn reputation_unlocks_the_choice_a_name_earns() {
    let mut encounter = event("the_wary_encounter", "exploration_first_contact");
    let mut good = choice("trade_on_our_good_name");
    good.availability.min_reputation = vec![rep_gate("mercy", 650_000)];
    let mut feared = choice("let_our_name_intimidate");
    feared.availability.max_reputation = vec![rep_gate("mercy", 300_000)];
    encounter.outcomes = vec![choice("withdraw"), choice("deal_hard"), good, feared];
    let good = position(&encounter, "trade_on_our_good_name");
    let feared = position(&encounter, "let_our_name_intimidate");
    assert!(good > 0 && feared > 0, "the base choices come first");

    let mut sim = campaign("preservers", 85);
    let neutral = available_outcome_indices(&sim, &encounter);
    assert!(neutral.contains(&0) && !neutral.contains(&good) && !neutral.contains(&feared));

    set_reputation(&mut sim, "mercy", 700_000);
    let kind = available_outcome_indices(&sim, &encounter);
    assert!(kind.contains(&good) && !kind.contains(&feared));

    set_reputation(&mut sim, "mercy", 200_000);
    let cold = available_outcome_indices(&sim, &encounter);
    assert!(cold.contains(&feared) && !cold.contains(&good));
}

#[test]
fn a_gated_outcome_is_offered_only_to_a_ship_that_earned_it() {
    let data = data();
    let mut sim = campaign("preservers", 43);
    let mut breach = event("coolant_breach", "engineering");
    let mut master = choice("master_controlled_cooldown");
    master.availability.min_knowledge = vec![KnowledgeFloor { id: "engineering_bay".to_string(), at_least: 700_000 }];
    master.ship_delta.hull_integrity = -20_000;
    breach.outcomes = vec![choice("vent_the_section"), choice("jury_rig"), master];
    let master = position(&breach, "master_controlled_cooldown");
    assert!(master > 0);
    module_mut(&mut sim, "engineering_bay").knowledge = 400_000;
    assert!(!available_outcome_indices(&sim, &breach).contains(&master));
    assert!(available_outcome_indices(&sim, &breach).contains(&0));
    module_mut(&mut sim, "engineering_bay").knowledge = 800_000;
    assert!(available_outcome_indices(&sim, &breach).contains(&master));
    apply_outcome(&mut sim, &data, &breach, master);

    let mut fracture = event("hull_fracture", "engineering");
    let mut repair = choice("draw_on_the_war_chest");
    repair.availability.requires_consequence = strs(&["war_chest"]);
    fracture.outcomes = vec![choice("reinforce_now"), choice("monitor_it"), repair];
    let repair = position(&fracture, "draw_on_the_war_chest");
    assert!(!available_outcome_indices(&sim, &fracture).contains(&repair));
    sim.consequences.push("war_chest".to_string());
    assert!(available_outcome_indices(&sim, &fracture).contains(&repair));
}

#[test]
fn a_complication_reads_the_ships_thinned_and_hungry_state() {
    let mut air = event("the_failing_air", "survival");
    let mut thin_twist = twist("too_few_hands");
    thin_twist.max_population = 400;
    air.complications = vec![thin_twist];
    let thin = air.complications.iter().find(|c| c.max_population > 0).unwrap().clone();
    let mut sim = campaign("preservers", 75);
    sim.population.count = thin.max_population + 100;
    assert!(active_complication(&sim, &air).is_none(), "a full crew answers the failing air on every deck");
    sim.population.count = thin.max_population;
    assert!(active_complication(&sim, &air).is_some_and(|c| c.id == thin.id));

    let mut table = event("the_thin_table", "survival");
    table.food_below = Some(150);
    let mut worn_twist = twist("nothing_left_to_cut");
    worn_twist.min_lean_food_years = 3;
    table.complications = vec![worn_twist];
    let worn = table.complications.iter().find(|c| c.min_lean_food_years > 0).unwrap().clone();
    let mut sim = campaign("preservers", 76);
    sim.resources.food = table.food_below.unwrap() - 1;
    sim.lean_food_years = worn.min_lean_food_years - 1;
    assert!(active_complication(&sim, &table).is_none());
    sim.lean_food_years = worn.min_lean_food_years;
    assert!(active_complication(&sim, &table).is_some_and(|c| c.id == worn.id));
}

fn hull_fracture() -> EventTemplate {
    let mut fracture = event("hull_fracture", "engineering");
    let mut reinforce = choice("reinforce_now");
    reinforce.resource_delta.minerals = -200;
    reinforce.ship_delta.hull_integrity = -20_000;
    let mut monitor = choice("monitor_it");
    monitor.ship_delta.hull_integrity = -60_000;
    fracture.outcomes = vec![reinforce, monitor];
    let mut deferral = twist("the_crack_runs");
    deferral.requires_consequence = strs(&["deferred_maintenance"]);
    deferral.applies_to_outcomes = strs(&["monitor_it"]);
    deferral.ship_delta.hull_integrity = -100_000;
    fracture.complications = vec![deferral];
    fracture
}

#[test]
fn a_choice_targeting_complication_punishes_only_the_choice_it_names() {
    let data = data();
    let fracture = hull_fracture();
    let comp = fracture.complications.iter().find(|c| c.applies_to_outcomes.iter().any(|o| o == "monitor_it")).unwrap().clone();
    let defer = position(&fracture, "monitor_it");
    let fix = position(&fracture, "reinforce_now");

    let mut deferring = campaign("preservers", 67);
    deferring.consequences.push("deferred_maintenance".to_string());
    assert!(active_complication(&deferring, &fracture).is_some_and(|c| c.id == comp.id));

    let hull_delta = |outcome: usize, deferred: bool| -> i64 {
        let mut sim = campaign("preservers", 67);
        sim.resources.minerals = 100_000;
        if deferred {
            sim.consequences.push("deferred_maintenance".to_string());
        }
        let h0 = sim.ship.hull_integrity;
        apply_outcome(&mut sim, &data, &fracture, outcome);
        sim.ship.hull_integrity - h0
    };

    assert!(hull_delta(defer, true) < hull_delta(defer, false), "deferring again eats the complication's extra toll");
    assert_eq!(hull_delta(fix, true), hull_delta(fix, false), "fixing the crack is untouched");
}

#[test]
fn a_complication_rides_only_when_its_state_gate_holds_and_lands_extra_toll() {
    let data = data();
    let mut failure = event("system_failure", "engineering");
    let mut repair = choice("emergency_repair");
    repair.ship_delta.hull_integrity = -50_000;
    failure.outcomes = vec![repair, choice("shut_it_down")];
    let mut failing_bay = twist("bay_already_failing");
    failing_bay.condition_below = vec![module_gate("engineering_bay", 300_000)];
    failing_bay.ship_delta.hull_integrity = -80_000;
    failure.complications = vec![failing_bay];
    assert!(!failure.complications.is_empty());

    let mut sound = campaign("adaptors", 51);
    module_mut(&mut sound, "engineering_bay").condition = 900_000;
    assert!(active_complication(&sound, &failure).is_none());
    assert_eq!(shown_description(&sound, &failure), failure.description);

    let mut failing = campaign("adaptors", 51);
    module_mut(&mut failing, "engineering_bay").condition = 200_000;
    assert!(active_complication(&failing, &failure).is_some());
    assert!(shown_description(&failing, &failure).len() > failure.description.len());

    let hull_of = |mut sim: SimState| {
        apply_outcome(&mut sim, &data, &failure, 0);
        sim.ship.hull_integrity
    };
    assert!(hull_of(failing.clone()) < hull_of(sound.clone()), "the complication lands an extra toll");
}

#[test]
fn the_triage_rule_pays_off_generations_after_it_is_written() {
    let data = data();
    let mut sim = campaign("preservers", 83);
    let mut payoff = event("the_rule_comes_due", "ethics");
    payoff.requires_consequence = strs(&["cold_triage_rule"]);
    payoff.min_generation = 3;
    let mut apply = choice("apply_the_rule");
    apply.population_delta.morale = -80_000;
    apply.population_delta.stability = 50_000;
    let mut brk = choice("break_the_rule");
    brk.population_delta.morale = 60_000;
    brk.population_delta.stability = -60_000;
    payoff.outcomes = vec![apply, brk];
    assert_eq!(payoff.requires_consequence, vec!["cold_triage_rule".to_string()]);
    sim.dynasty.generation = 4;

    assert!(!passes_gate(&sim, &payoff));
    sim.consequences.push("cold_triage_rule".to_string());
    assert!(passes_gate(&sim, &payoff), "the written rule comes due");

    let mut honor = sim.clone();
    apply_outcome(&mut honor, &data, &payoff, position(&payoff, "apply_the_rule"));
    let mut refuse = sim.clone();
    apply_outcome(&mut refuse, &data, &payoff, position(&payoff, "break_the_rule"));
    assert!(refuse.population.morale > honor.population.morale);
}

// ---------------------------------------------------------------- provisioning and reputation chains

#[test]
fn the_provisioners_debt_becomes_a_branching_generational_chain() {
    let data = data();
    let mut sim = campaign("preservers", 51);
    let mut called_in = event("the_debt_called_in", "diplomacy");
    called_in.requires_consequence = strs(&["owed_a_favor"]);
    called_in.min_generation = 4;
    let mut honor = choice("honor_the_debt");
    honor.resource_delta.food = -200;
    let mut renege = choice("renege_the_debt");
    renege.long_term_consequences = strs(&["broke_a_bargain"]);
    called_in.outcomes = vec![honor, renege];
    assert_eq!(called_in.requires_consequence, vec!["owed_a_favor".to_string()]);
    sim.dynasty.generation = 5;

    assert!(!passes_gate(&sim, &called_in), "no collector comes for a debt that was never taken");
    sim.consequences.push("owed_a_favor".to_string());
    assert!(passes_gate(&sim, &called_in), "the taken favor comes due");

    let mut honor = sim.clone();
    apply_outcome(&mut honor, &data, &called_in, position(&called_in, "honor_the_debt"));
    assert!(!honor.consequences.contains(&"broke_a_bargain".to_string()));

    let mut renege = sim.clone();
    apply_outcome(&mut renege, &data, &called_in, position(&called_in, "renege_the_debt"));
    assert!(renege.consequences.contains(&"broke_a_bargain".to_string()), "disowning the debt marks the hull");

    let mut marked = event("the_marked_hull", "diplomacy");
    marked.requires_consequence = strs(&["broke_a_bargain"]);
    marked.min_generation = 6;
    assert_eq!(marked.requires_consequence, vec!["broke_a_bargain".to_string()]);
    renege.dynasty.generation = 7;
    assert!(passes_gate(&renege, &marked), "the closed ports find the ship that broke its word");
    honor.dynasty.generation = 7;
    assert!(!passes_gate(&honor, &marked), "a ship that kept its word is never turned away");
}

#[test]
fn the_tempting_world_trades_food_for_a_biocontamination_risk() {
    let data = data();
    let mut sim = campaign("wanderers", 45);
    let mut tempting = event("the_tempting_world", "survival");
    tempting.food_below = Some(400);
    tempting.phases = vec![ContractPhase::Travel];
    let mut land = choice("land_and_harvest");
    land.resource_delta.food = 800;
    land.subsystem_deltas = vec![
        SubsystemDelta { id: "agriculture".to_string(), condition: -100_000, knowledge: 0 },
        SubsystemDelta { id: "medical_bay".to_string(), condition: -100_000, knowledge: 0 },
    ];
    let mut skim = choice("sterile_skim");
    skim.resource_delta.food = 200;
    tempting.outcomes = vec![land, skim];
    let famine = tempting.food_below.unwrap();
    let mut active = start_contract(&tagged("seedfall", ContractObjective::Colonize, &[]), &sim);
    active.phase = ContractPhase::Travel;
    sim.contract = Some(active);

    sim.resources.food = famine + 2000;
    assert!(!passes_gate(&sim, &tempting), "a full larder is not tempted");
    sim.resources.food = famine - 1;
    assert!(passes_gate(&sim, &tempting), "a hungry ship meets the tempting world");

    let land = position(&tempting, "land_and_harvest");
    let (food0, agri0, med0) =
        (sim.resources.food, module_of(&sim, "agriculture").condition, module_of(&sim, "medical_bay").condition);
    apply_outcome(&mut sim, &data, &tempting, land);
    assert!(sim.resources.food > food0, "the harvest fills the holds");
    assert!(module_of(&sim, "agriculture").condition < agri0 && module_of(&sim, "medical_bay").condition < med0);
}

#[test]
fn the_deep_stores_reward_foresight_only_when_a_famine_comes() {
    let data = data();
    let mut sim = campaign("adaptors", 63);
    let mut payoff = event("the_vaults_answer", "survival");
    payoff.requires_consequence = strs(&["deep_stores_built"]);
    payoff.food_below = Some(300);
    payoff.min_generation = 4;
    let mut open = choice("open_the_vaults");
    open.resource_delta.food = 1_500;
    payoff.outcomes = vec![open, choice("keep_them_sealed")];
    assert_eq!(payoff.requires_consequence, vec!["deep_stores_built".to_string()]);
    assert!(payoff.food_below.is_some());
    let famine = payoff.food_below.unwrap();
    sim.dynasty.generation = 5;

    sim.consequences.push("deep_stores_built".to_string());
    sim.resources.food = famine + 5000;
    assert!(!passes_gate(&sim, &payoff), "a stocked ship does not open its emergency vaults");
    let mut no_vaults = campaign("adaptors", 63);
    no_vaults.dynasty.generation = 5;
    no_vaults.resources.food = famine - 1;
    assert!(!passes_gate(&no_vaults, &payoff), "with no vaults built, the foresight payoff cannot fire");
    sim.resources.food = famine - 1;
    assert!(passes_gate(&sim, &payoff), "built stores + a famine finally open the vaults");
    let before = sim.resources.food;
    apply_outcome(&mut sim, &data, &payoff, position(&payoff, "open_the_vaults"));
    assert!(sim.resources.food > before, "opening the deep vaults feeds the ship");
}

fn castaways() -> EventTemplate {
    let mut castaways = event("the_castaways", "exploration_first_contact");
    let mut take = choice("take_them_aboard");
    take.population_delta.count = 40;
    take.resource_delta.food = -150;
    take.reputation_deltas = vec![named("mercy", 60_000)];
    let mut stores = choice("take_the_stores_only");
    stores.resource_delta.food = 100;
    stores.reputation_deltas = vec![named("mercy", -50_000)];
    castaways.outcomes = vec![take, stores];
    castaways
}

#[test]
fn the_castaways_can_grow_the_ship_at_a_provisioning_cost() {
    let data = data();
    let base = campaign("adaptors", 71);
    let event = castaways();

    let mut aboard = base.clone();
    apply_outcome(&mut aboard, &data, &event, position(&event, "take_them_aboard"));
    let mut trade = base.clone();
    apply_outcome(&mut trade, &data, &event, position(&event, "take_the_stores_only"));

    assert!(aboard.population.count > base.population.count, "taking the castaways aboard grows the ship");
    assert!(aboard.resources.food < trade.resources.food, "the berths cost food the stores-only trade instead banks");
    assert_eq!(trade.population.count, base.population.count, "trading for stores adds no mouths");
}

#[test]
fn a_shortage_gate_holds_an_opportunity_until_the_ship_runs_low() {
    let data = data();
    let mut sim = campaign("adaptors", 13);
    let mut dry = event("the_dry_tank", "engineering");
    dry.fuel_below = Some(200_000);
    dry.phases = vec![ContractPhase::Travel];
    assert_eq!(dry.fuel_below, Some(200_000));
    let mut active = start_contract(&charter_of(&data, "deep_vein_survey"), &sim);
    active.phase = ContractPhase::Travel;
    sim.contract = Some(active);

    sim.ship.fuel = 800_000;
    assert!(!passes_gate(&sim, &dry), "a full tank keeps the crisis away");
    sim.ship.fuel = 100_000;
    assert!(passes_gate(&sim, &dry), "a near-dry tank surfaces it");
}

#[test]
fn a_double_shortage_gate_needs_both_shortages_at_once() {
    let mut sim = campaign("preservers", 29);
    let mut winter = event("the_long_winter", "survival");
    winter.food_below = Some(300);
    winter.energy_below = Some(80);
    assert!(winter.food_below.is_some() && winter.energy_below.is_some());
    let (food_t, energy_t) = (winter.food_below.unwrap(), winter.energy_below.unwrap());

    sim.resources.food = food_t - 1;
    sim.resources.energy = energy_t + 1000;
    assert!(!passes_gate(&sim, &winter), "low food alone is not the long winter");
    sim.resources.food = food_t + 1000;
    sim.resources.energy = energy_t - 1;
    assert!(!passes_gate(&sim, &winter), "low energy alone is not the long winter");
    sim.resources.food = food_t - 1;
    sim.resources.energy = energy_t - 1;
    assert!(passes_gate(&sim, &winter), "hunger and cold together bring it");
}

#[test]
fn a_reputation_builds_across_choices_and_opens_or_closes_doors() {
    let data = data();
    let mut sim = campaign("preservers", 81);
    assert_eq!(sim.reputation("mercy"), 500_000, "an untouched trait is neutral");
    let mut kind = event("the_reputation_precedes_us", "diplomacy");
    kind.min_reputation = vec![rep_gate("mercy", 650_000)];
    let mut feared = event("the_feared_name", "diplomacy");
    feared.max_reputation = vec![rep_gate("mercy", 300_000)];
    assert!(!passes_gate(&sim, &kind), "no name yet, no merciful door");
    assert!(!passes_gate(&sim, &feared), "and no feared door either");

    let castaways = castaways();
    let aboard = position(&castaways, "take_them_aboard");
    for _ in 0..3 {
        apply_outcome(&mut sim, &data, &castaways, aboard);
    }
    assert!(sim.reputation("mercy") > 500_000, "merciful choices build a merciful name");
    assert!(passes_gate(&sim, &kind), "a name for mercy opens the door only trust extends");

    let mut cold = campaign("preservers", 82);
    let stores = position(&castaways, "take_the_stores_only");
    for _ in 0..5 {
        apply_outcome(&mut cold, &data, &castaways, stores);
    }
    assert!(cold.reputation("mercy") < 300_000, "cold choices earn a cold name");
    assert!(passes_gate(&cold, &feared) && !passes_gate(&cold, &kind));
}

// ---------------------------------------------------------------- the second face, and the era and state gates

#[test]
fn the_ship_has_a_second_face_its_resolve() {
    let data = data();
    let mut sim = campaign("preservers", 83);
    assert_eq!(sim.reputation("resolve"), 500_000, "an untouched trait is neutral");
    let mut unblinking = event("the_unblinking_ship", "diplomacy");
    unblinking.min_reputation = vec![rep_gate("resolve", 620_000)];
    let mut folds = event("the_ship_that_folds", "diplomacy");
    folds.max_reputation = vec![rep_gate("resolve", 380_000)];
    assert!(!passes_gate(&sim, &unblinking), "no name for nerve yet, no door");
    assert!(folds.max_reputation.iter().any(|g| g.id == "resolve"));

    let mut standoff = event("the_line_in_the_dark", "diplomacy");
    let mut hold = choice("hold_the_line");
    hold.reputation_deltas = vec![named("resolve", 60_000)];
    let mut give = choice("yield_the_ground");
    give.reputation_deltas = vec![named("resolve", -60_000)];
    standoff.outcomes = vec![hold, give];
    let hold = position(&standoff, "hold_the_line");
    let mercy_before = sim.reputation("mercy");
    for _ in 0..3 {
        apply_outcome(&mut sim, &data, &standoff, hold);
    }
    assert!(sim.reputation("resolve") > 620_000, "holding the line builds a name for nerve");
    assert_eq!(sim.reputation("mercy"), mercy_before, "resolve is its own axis");
    assert!(passes_gate(&sim, &unblinking));

    let mut soft = campaign("preservers", 84);
    let give = position(&standoff, "yield_the_ground");
    for _ in 0..3 {
        apply_outcome(&mut soft, &data, &standoff, give);
    }
    assert!(soft.reputation("resolve") < 380_000, "yielding the ground earns a name for folding");
}

#[test]
fn a_forbidden_consequence_closes_a_door_a_choice_slammed() {
    let mut sim = campaign("preservers", 57);
    let mut trust = event("the_strangers_trust", "diplomacy");
    trust.forbidden_consequence = strs(&["broke_a_bargain"]);
    assert_eq!(trust.forbidden_consequence, vec!["broke_a_bargain".to_string()]);
    assert!(passes_gate(&sim, &trust), "an unspoiled name is extended the stranger's trust");
    sim.consequences.push("broke_a_bargain".to_string());
    assert!(!passes_gate(&sim, &trust), "a known oathbreaker is offered no trust");

    let mut vindication = event("the_founders_vindicated", "legacy_drift");
    vindication.forbidden_consequence = strs(&["buried_the_record", "the_lost_archive"]);
    vindication.min_generation = 5;
    assert!(vindication.forbidden_consequence.len() >= 2);
    let mut clean = campaign("preservers", 58);
    clean.dynasty.generation = 6;
    assert!(passes_gate(&clean, &vindication), "an intact founding record can be vindicated");
    clean.consequences.push("the_lost_archive".to_string());
    assert!(!passes_gate(&clean, &vindication));
}

#[test]
fn a_famines_options_turn_on_the_ships_reputation() {
    let mut aid = event("the_kindness_returned", "survival");
    aid.food_below = Some(250);
    aid.min_reputation = vec![rep_gate("mercy", 650_000)];
    let mut alone = event("the_famine_faced_alone", "survival");
    alone.food_below = Some(250);
    alone.max_reputation = vec![rep_gate("mercy", 300_000)];
    alone.min_generation = 4;
    let famine = aid.food_below.expect("the aid gates on a famine");

    let mut sim = campaign("preservers", 91);
    sim.resources.food = famine - 1;
    sim.dynasty.generation = 5;
    assert!(!passes_gate(&sim, &aid) && !passes_gate(&sim, &alone));
    set_reputation(&mut sim, "mercy", 700_000);
    assert!(passes_gate(&sim, &aid) && !passes_gate(&sim, &alone), "a merciful name is helped, not shunned");
    set_reputation(&mut sim, "mercy", 200_000);
    assert!(passes_gate(&sim, &alone) && !passes_gate(&sim, &aid), "a feared name faces its famine alone");
    sim.resources.food = famine + 5000;
    assert!(!passes_gate(&sim, &alone), "reputation only bites where the larder is already thin");
}

#[test]
fn a_sustained_plenty_gate_waits_for_a_soft_generation() {
    let mut sim = campaign("preservers", 65);
    let mut soft = event("the_soft_generation", "survival");
    soft.food_above = Some(6_000);
    soft.min_fat_food_years = 8;
    let flush = soft.food_above.expect("gates on a full larder");
    let years = soft.min_fat_food_years;
    assert!(years > 0);

    sim.resources.food = flush + 1000;
    sim.fat_food_years = years - 1;
    assert!(!passes_gate(&sim, &soft), "one good harvest is not yet a generation of plenty");
    sim.fat_food_years = years;
    assert!(passes_gate(&sim, &soft), "a lifetime of plenty raises the soft generation");
    sim.resources.food = flush - 5000;
    assert!(!passes_gate(&sim, &soft), "the soft-generation reckoning needs the plenty to still be present");
}

#[test]
fn a_chronic_scarcity_gate_waits_for_a_lean_generation() {
    let mut sim = campaign("preservers", 63);
    let mut hunger = event("the_long_hunger", "survival");
    hunger.food_below = Some(300);
    hunger.min_lean_food_years = 4;
    let famine = hunger.food_below.expect("gates on a lean larder");
    let years = hunger.min_lean_food_years;
    assert!(years > 0);

    sim.resources.food = famine - 1;
    sim.lean_food_years = years - 1;
    assert!(!passes_gate(&sim, &hunger), "one season of hunger is not yet a lean generation");
    sim.lean_food_years = years;
    assert!(passes_gate(&sim, &hunger), "years of grinding scarcity bring the long hunger");
    sim.resources.food = famine + 5000;
    assert!(!passes_gate(&sim, &hunger), "a recovered larder ends the long hunger");
}

#[test]
fn a_paradox_gate_needs_abundance_and_scarcity_at_once() {
    let mut sim = campaign("preservers", 53);
    let mut gilded = event("the_gilded_hunger", "survival");
    gilded.credits_above = Some(20_000);
    gilded.food_below = Some(300);
    let rich = gilded.credits_above.expect("gates on a fat treasury");
    let starving = gilded.food_below.expect("gates on an empty larder");

    sim.resources.credits = rich + 1;
    sim.resources.food = starving + 1000;
    assert!(!passes_gate(&sim, &gilded), "a rich, fed ship has no gilded hunger");
    sim.resources.credits = rich - 1000;
    sim.resources.food = starving - 1;
    assert!(!passes_gate(&sim, &gilded), "a poor, starving ship faces plain famine, not gilded hunger");
    sim.resources.credits = rich + 1;
    sim.resources.food = starving - 1;
    assert!(passes_gate(&sim, &gilded), "wealth it cannot eat and a larder run dry, at once");
}

#[test]
fn a_governance_gate_waits_for_a_failing_government() {
    let mut sim = campaign("preservers", 62);
    let mut ungoverned = event("the_ungoverned_ship", "ethics");
    ungoverned.max_stability = 300_000;
    let ceiling = ungoverned.max_stability;
    assert!(ceiling > 0);

    sim.population.stability = ceiling + 100_000;
    assert!(!passes_gate(&sim, &ungoverned), "a well-ordered ship's government still functions");
    sim.population.stability = ceiling;
    assert!(passes_gate(&sim, &ungoverned), "a failing government surfaces the reckoning");
}

#[test]
fn a_founder_authority_gate_waits_for_a_lapsed_covenant() {
    let mut sim = campaign("preservers", 60);
    let mut lapsed = event("the_lapsed_covenant", "legacy_drift");
    lapsed.max_legacy_loyalty = 350_000;
    let ceiling = lapsed.max_legacy_loyalty;
    assert!(ceiling > 0);

    sim.population.legacy_loyalty = ceiling + 100_000;
    assert!(!passes_gate(&sim, &lapsed), "a still-devoted ship holds the founders' charter binding");
    sim.population.legacy_loyalty = ceiling;
    assert!(passes_gate(&sim, &lapsed), "a lapsed covenant surfaces the reckoning");
}

#[test]
fn a_cohesion_gate_waits_for_a_reunited_ship() {
    let mut sim = campaign("preservers", 59);
    let mut mending = event("the_mending", "ethics");
    mending.min_unity = 600_000;
    let floor = mending.min_unity;
    assert!(floor > 0);

    sim.population.unity = floor - 100_000;
    assert!(!passes_gate(&sim, &mending), "a fracturing ship has no mending to reflect on");
    sim.population.unity = floor;
    assert!(passes_gate(&sim, &mending), "a reunited ship surfaces the mending");
}

#[test]
fn a_depopulation_gate_waits_for_a_thinned_crew() {
    let mut sim = campaign("preservers", 51);
    let mut thinning = event("the_thinning_decks", "survival");
    thinning.max_population = 600;
    let ceiling = thinning.max_population;
    assert!(ceiling > 0);

    sim.population.count = ceiling + 1;
    assert!(!passes_gate(&sim, &thinning), "a full ship does not reckon with empty decks");
    sim.population.count = ceiling;
    assert!(passes_gate(&sim, &thinning), "a crew fallen to the ceiling surfaces the thinning");
}

#[test]
fn an_abundance_gate_waits_for_real_plenty_and_softness_worsens_the_winter() {
    let data = data();
    let mut sim = campaign("preservers", 41);
    let mut fat = event("the_fat_years", "survival");
    fat.food_above = Some(5_000);
    let mut live_well = choice("live_well");
    live_well.resource_delta.food = -1_000;
    live_well.population_delta.morale = 50_000;
    live_well.long_term_consequences = strs(&["grown_soft"]);
    let mut bank = choice("bank_the_surplus");
    bank.long_term_consequences = strs(&["thrift_kept"]);
    fat.outcomes = vec![bank, live_well];
    let threshold = fat.food_above.expect("the fat years gate on abundance");

    sim.resources.food = threshold - 1;
    assert!(!passes_gate(&sim, &fat), "a merely comfortable ship has no surplus to reckon with");
    sim.resources.food = threshold + 1;
    assert!(passes_gate(&sim, &fat), "genuine abundance surfaces the fat-years choice");

    let mut winter = event("the_long_winter", "survival");
    winter.food_below = Some(300);
    winter.energy_below = Some(80);
    let mut soft_twist = twist("a_generation_gone_soft");
    soft_twist.requires_consequence = strs(&["grown_soft"]);
    winter.complications = vec![soft_twist];
    let soft = winter.complications.iter().find(|c| c.requires_consequence.iter().any(|s| s == "grown_soft")).unwrap().clone();
    assert!(active_complication(&sim, &winter).is_none());
    let live_well = fat.outcomes.iter().position(|o| o.long_term_consequences.iter().any(|s| s == "grown_soft")).unwrap();
    apply_outcome(&mut sim, &data, &fat, live_well);
    assert!(sim.consequences.iter().any(|c| c == "grown_soft"), "living well in the fat years softens the ship");
    assert!(active_complication(&sim, &winter).is_some_and(|c| c.id == soft.id));
}

#[test]
fn a_condition_gate_waits_for_a_module_to_break_down() {
    let mut sim = campaign("preservers", 23);
    let mut air = event("the_failing_air", "survival");
    air.condition_below = vec![module_gate("life_support_habitat", 400_000)];
    assert_eq!(air.condition_below[0].id, "life_support_habitat");

    module_mut(&mut sim, "life_support_habitat").condition = 900_000;
    assert!(!passes_gate(&sim, &air), "a sound plant keeps the crisis away");
    module_mut(&mut sim, "life_support_habitat").condition = 200_000;
    assert!(passes_gate(&sim, &air), "a failing plant surfaces it");
}

#[test]
fn an_era_ceiling_retires_deep_middle_content_before_homecoming() {
    let mut sim = campaign("adaptors", 61);
    let mut only = event("the_only_world", "legacy_drift");
    only.min_generation = 4;
    only.max_generation = 9;
    assert!(only.min_generation > 0 && only.max_generation >= only.min_generation);

    sim.dynasty.generation = only.min_generation - 1;
    assert!(!passes_gate(&sim, &only), "too early: the founders still live");
    sim.dynasty.generation = only.min_generation;
    assert!(passes_gate(&sim, &only), "the deep middle surfaces it");
    sim.dynasty.generation = only.max_generation + 1;
    assert!(!passes_gate(&sim, &only), "too late: near home it is no longer the only world");
}

#[test]
fn a_neglected_reactor_blooms_into_a_medical_crisis_a_generation_later() {
    let data = data();
    let mut sim = campaign("adaptors", 29);
    let mut creep = event("the_reactor_creep", "engineering");
    creep.condition_below = vec![module_gate("engineering_bay", 500_000)];
    let mut hot = choice("run_it_hot");
    hot.resource_delta.energy = 200;
    hot.long_term_consequences = strs(&["reactor_run_hot"]);
    let mut reline = choice("reline_the_shielding");
    reline.resource_delta.minerals = -150;
    creep.outcomes = vec![hot, reline];
    assert_eq!(creep.condition_below[0].id, "engineering_bay");
    module_mut(&mut sim, "engineering_bay").condition = 400_000;
    assert!(passes_gate(&sim, &creep), "a worn bay surfaces the creep");
    apply_outcome(&mut sim, &data, &creep, position(&creep, "run_it_hot"));
    assert!(sim.consequences.contains(&"reactor_run_hot".to_string()));

    let mut bloom = event("the_radiation_bloom", "biology_medical");
    bloom.requires_consequence = strs(&["reactor_run_hot"]);
    bloom.min_generation = 3;
    assert_eq!(bloom.requires_consequence, vec!["reactor_run_hot".to_string()]);
    sim.dynasty.generation = bloom.min_generation.saturating_sub(1);
    assert!(!passes_gate(&sim, &bloom), "too soon: the bill is not yet due");
    sim.dynasty.generation = bloom.min_generation;
    assert!(passes_gate(&sim, &bloom), "a generation on, the reactor's debt blooms");

    let mut prudent = campaign("adaptors", 29);
    module_mut(&mut prudent, "engineering_bay").condition = 400_000;
    apply_outcome(&mut prudent, &data, &creep, position(&creep, "reline_the_shielding"));
    prudent.dynasty.generation = bloom.min_generation;
    assert!(!passes_gate(&prudent, &bloom), "a ship that paid for the shielding never sees the bloom");
}

#[test]
fn a_broken_garden_breakdown_couples_agriculture_to_the_medical_bay() {
    let data = data();
    let mut sim = campaign("preservers", 37);
    let mut beds = event("the_broken_beds", "survival");
    beds.condition_below = vec![module_gate("agriculture", 400_000)];
    let mut soil = choice("fall_back_to_soil");
    soil.resource_delta.food = -100;
    soil.subsystem_deltas = vec![
        SubsystemDelta { id: "agriculture".to_string(), condition: 50_000, knowledge: 0 },
        SubsystemDelta { id: "medical_bay".to_string(), condition: -80_000, knowledge: 0 },
    ];
    beds.outcomes = vec![choice("strip_the_stores"), soil];
    assert_eq!(beds.condition_below[0].id, "agriculture");

    module_mut(&mut sim, "agriculture").condition = 900_000;
    assert!(!passes_gate(&sim, &beds), "a sound garden keeps it away");
    module_mut(&mut sim, "agriculture").condition = 200_000;
    assert!(passes_gate(&sim, &beds), "a failing garden surfaces it");

    let soil = beds.outcomes.iter().position(|o| o.id == "fall_back_to_soil").unwrap();
    let med_before = module_of(&sim, "medical_bay").condition;
    apply_outcome(&mut sim, &data, &beds, soil);
    assert!(module_of(&sim, "medical_bay").condition < med_before);
}

#[test]
fn an_energy_shortage_gate_waits_for_a_browning_reactor() {
    let mut sim = campaign("adaptors", 17);
    let mut dimming = event("the_dimming", "engineering");
    dimming.energy_below = Some(1200);
    assert_eq!(dimming.energy_below, Some(1200));

    sim.resources.energy = 5000;
    assert!(!passes_gate(&sim, &dimming), "a full grid keeps the crisis away");
    sim.resources.energy = 800;
    assert!(passes_gate(&sim, &dimming), "a browning grid surfaces it");
}

#[test]
fn event_chance_is_capped() {
    let data = data();
    assert_eq!(event_chance(&data.config, 100, ONE), data.config.event_chance_cap);
    assert_eq!(event_chance(&data.config, 0, 0), data.config.event_chance_base);
}

#[test]
fn starving_ship_doubles_food_weight_in_scoring() {
    let data = data();
    let mut sim = campaign("preservers", 3);
    let mut feed = choice("feed_the_newborns");
    feed.resource_delta.food = -300;
    feed.population_delta.count = 50;
    let hold = choice("hold_the_line");

    sim.resources.food = 100;
    let feed_starving = score_outcome(&feed, &sim, &data.config);
    sim.resources.food = 5000;
    let feed_fed = score_outcome(&feed, &sim, &data.config);
    assert!(feed_starving < feed_fed, "spending food must score worse while starving");

    sim.resources.food = 100;
    assert!(score_outcome(&hold, &sim, &data.config) > score_outcome(&feed, &sim, &data.config));
}

fn system_failure() -> EventTemplate {
    let mut failure = event("system_failure", "engineering");
    let mut repair = choice("emergency_repair");
    repair.resource_delta.minerals = -100;
    let mut reroute = choice("reroute_power");
    reroute.ship_delta.life_support = -50_000;
    reroute.long_term_consequences = strs(&["deferred_maintenance"]);
    failure.outcomes = vec![repair, reroute];
    failure
}

#[test]
fn apply_outcome_clears_pending_and_records_consequences() {
    let data = data();
    let mut sim = campaign("adaptors", 5);
    let template = system_failure();
    sim.pending_event = Some(PendingEvent { template_id: template.id.clone(), rolled_month_clock: sim.month_clock });

    apply_outcome(&mut sim, &data, &template, 1);
    assert!(sim.pending_event.is_none());
    assert!(sim.consequences.contains(&"deferred_maintenance".to_owned()));
    assert!(sim.ship.life_support < ONE);
}

#[test]
fn a_force_return_outcome_turns_the_ship_home() {
    let data = data();
    let mut sim = campaign("preservers", 5);
    let mut contract = start_contract(&charter_of(&data, "deep_vein_survey"), &sim);
    contract.months_elapsed = 20 * 12;
    contract.phase_index = 1;
    contract.phase = ContractPhase::Operation;
    sim.contract = Some(contract);

    let mut scram = event("reactor_scram", "engineering");
    let mut abort = choice("abort_the_mission");
    abort.force_return = true;
    abort.ship_delta.hull_integrity = -100_000;
    scram.outcomes = vec![choice("hold_station"), abort];
    let idx = scram.outcomes.iter().position(|o| o.force_return).unwrap();
    apply_outcome(&mut sim, &data, &scram, idx);

    assert_eq!(sim.contract.as_ref().unwrap().phase, ContractPhase::Return);
}

// ---------------------------------------------------------------- event builders

fn event(id: &str, family: &str) -> EventTemplate {
    EventTemplate {
        id: id.to_string(),
        title: id.replace('_', " "),
        description: format!("The {} unfolds.", id.replace('_', " ")),
        category: EventCategory::GenerationalChallenge,
        family: family.to_string(),
        outcomes: vec![choice("carry_on")],
        complications: vec![],
        legacy_weight_modifiers: vec![],
        scheduled_only: false,
        phases: vec![],
        requires_consequence: vec![],
        forbidden_consequence: vec![],
        requires_charter_tag: vec![],
        requires_dominant_faction: String::new(),
        requires_factions_aboard: vec![],
        faction_approval_below: vec![],
        faction_approval_above: vec![],
        knowledge_below: vec![],
        condition_below: vec![],
        food_below: None,
        fuel_below: None,
        spare_parts_below: None,
        energy_below: None,
        food_above: None,
        credits_above: None,
        max_year: 0,
        max_generation: 0,
        min_objective_fraction: 0,
        max_population: 0,
        max_dynasty_size: 0,
        hull_below: None,
        life_support_below: None,
        min_lean_food_years: 0,
        min_fat_food_years: 0,
        max_legacy_loyalty: 0,
        max_stability: 0,
        min_reputation: vec![],
        max_reputation: vec![],
        min_year: 0,
        min_generation: 0,
        min_cultural_drift: 0,
        min_morale: 0,
        min_unity: 0,
        requires_decision: false,
    }
}

fn open_to_all() -> OutcomeAvailability {
    OutcomeAvailability {
        requires_consequence: vec![],
        min_knowledge: vec![],
        min_reputation: vec![],
        max_reputation: vec![],
        requires_dominant_faction: String::new(),
    }
}

fn choice(id: &str) -> EventOutcome {
    EventOutcome {
        id: id.to_string(),
        label: id.replace('_', " "),
        log: String::new(),
        resource_delta: no_resources(),
        ship_delta: no_ship(),
        population_delta: no_people(),
        long_term_consequences: vec![],
        reputation_deltas: vec![],
        schedule_followup: None,
        grant_component: None,
        force_return: false,
        faction_loss: None,
        faction_loss_id: None,
        faction_merge_id: None,
        subsystem_deltas: vec![],
        faction_approval_deltas: vec![],
        faction_approval_smallest: 0,
        objective_progress_delta: 0,
        availability: open_to_all(),
    }
}

fn twist(id: &str) -> Complication {
    Complication {
        id: id.to_string(),
        description_add: format!("And worse: {}.", id.replace('_', " ")),
        log: String::new(),
        min_cultural_drift: 0,
        condition_below: vec![],
        requires_consequence: vec![],
        food_below: None,
        requires_dominant_faction: String::new(),
        requires_factions_aboard: vec![],
        min_prior_occurrences: 0,
        max_population: 0,
        min_lean_food_years: 0,
        min_fat_food_years: 0,
        min_reputation: vec![],
        max_reputation: vec![],
        applies_to_outcomes: vec![],
        resource_delta: no_resources(),
        ship_delta: no_ship(),
        population_delta: no_people(),
        subsystem_deltas: vec![],
    }
}

fn followup(id: &str, delay_years: u32) -> Option<Followup> {
    Some(Followup { template_id: id.to_string(), delay_years })
}

fn position(e: &EventTemplate, id: &str) -> usize {
    e.outcomes.iter().position(|o| o.id == id).unwrap()
}

fn module_gate(id: &str, below: i64) -> SubsystemGate {
    SubsystemGate { id: id.to_string(), below }
}
// ---------------------------------------------------------------- fixture

const ONE: i64 = 1_000_000;

fn strs(xs: &[&str]) -> Vec<String> {
    xs.iter().map(|s| s.to_string()).collect()
}

fn tape(seed: u64) -> Rolls {
    let mut x = seed.wrapping_mul(0x9E37_79B9_7F4A_7C15).wrapping_add(0x632B_E59B_D9B4_E019);
    let mut values = Vec::new();
    for _ in 0..4096 {
        x ^= x << 13;
        x ^= x >> 7;
        x ^= x << 17;
        values.push(x);
    }
    Rolls::new(values)
}

fn no_resources() -> ResourceDelta {
    ResourceDelta::zero()
}

fn no_ship() -> ShipDelta {
    ShipDelta::zero()
}

fn no_people() -> PopulationDelta {
    PopulationDelta::zero()
}

fn config() -> GameConfig {
    GameConfig {
        repair: RepairConfig {
            field_ceiling: 800_000,
            field_gain: 100_000,
            field_parts_cost: 5,
            field_minerals_cost: 20,
            full_credits_cost: 500,
            full_minerals_cost: 200,
            full_parts_restock: 50,
        },
        ship: ShipConfig {
            credits_per_speed: 25,
            minerals_per_cargo: 100_000,
            fuel_regen_per_point: 10_000,
            combat_dilemma_odds_per_point: 20_000,
            dilemma_odds_cap: 950_000,
            contract_progress_per_speed: 100_000,
        },
        failure_risk: FailureRiskConfig {
            drift_threshold: 700_000,
            drift_points: 30,
            unity_threshold: 300_000,
            unity_points: 25,
            tradition_threshold: 20,
            tradition_points: 35,
            body_horror_threshold: 5,
            body_horror_points: 30,
            dread_threshold: 700_000,
            dread_points: 30,
            piracy_threshold: 700_000,
            piracy_points: 30,
            at_risk_threshold: 60,
        },
        mortality: MortalityConfig {
            monthly_accident_chance: 100,
            monthly_base_chance: 200,
            onset_age: 50,
            doubling_years: 8,
            dynasty_target_size: 6,
            annual_birth_chance: 300_000,
            event_death_loss_threshold: 50,
            event_death_chance: 250_000,
        },
        crew: CrewConfig { retirement_age: 65, unity_recovery_ceiling: 700_000 },
        real_time: RealTimeConfig { impact_variance: 400_000, impact_min_magnitude_for_range: 20 },
        subsystems: SubsystemsConfig {
            train_cost_credits: 100,
            train_knowledge_gain: 200_000,
            knowledge_decay_per_generation: 150_000,
            education_transmission_per_tier: 50_000,
            education_transmission_condition_penalty: 500_000,
            engineering_decay_swing: 500_000,
            tender_approval_decay_scale: 400_000,
            agriculture_food_bonus_per_tier: 100_000,
            agriculture_condition_food_penalty: 500_000,
            life_support_failure_threshold: 500_000,
            life_support_failure_mortality: 100_000,
            life_support_energy_critical: 50,
            agriculture_life_support_contribution: 200_000,
            medical_famine_relief_per_condition: 300_000,
            security_unity_recovery_per_condition: 20_000,
            security_stability_recovery_per_condition: 20_000,
            security_stability_recovery_ceiling: 700_000,
            habitat_morale_swing: 40_000,
            security_crisis_mitigation: 200_000,
            crisis_weight_floor: 100_000,
            objective_condition_penalty: 500_000,
        },
        voyage_drift: VoyageDriftConfig {
            adaptation_per_year: 5_000,
            cultural_drift_per_year: 4_000,
            legacy_loyalty_per_year: -3_000,
            morale_strain_per_year: -1_000,
            unity_strain_per_year: -1_000,
            legacy_multipliers: vec![
                ("adaptors".to_string(), 1_500_000),
                ("preservers".to_string(), 500_000),
                ("wanderers".to_string(), 1_000_000),
            ],
            dominant_ideology_scale: 300_000,
            archive_drift_resistance: 500_000,
            medical_adaptation_resistance: 400_000,
            agriculture_adaptation_resistance: 300_000,
        },
        flavor: FlavorConfig {
            retirement: strs(&["{name} hands the watch to younger hands."]),
            obituary: strs(&["{name} is laid to rest among the stars."]),
            crew_death: strs(&["The {post}, {name}, is gone."]),
            succession: strs(&["{name} takes the chair."]),
            extinction: strs(&["The line of {name} has ended."]),
            subsystem_repair: strs(&[
                "Welders crawl the {name} until it hums again.",
                "The {name} is coaxed back into service.",
            ]),
            subsystem_training: strs(&["A new cohort learns the {name}."]),
            phase_lines: vec![
                ("travel".to_string(), strs(&["The engines light for the long crossing.", "Underway again, the stars wheel past."])),
                ("operation".to_string(), strs(&["The work begins on station."])),
            ],
            ambient: strs(&["A quiet year aboard."]),
            ambient_lean: strs(&["Another lean year; the ration lines grow quiet."]),
            ambient_lean_years_threshold: 3,
            ambient_hollow: strs(&["The corridors echo, half-empty."]),
            ambient_population_threshold: 200,
            ambient_drifted: strs(&["The old words sound strange to the young."]),
            ambient_drift_threshold: 600_000,
            ambient_fat: strs(&["The galleys overflow; no one remembers hunger."]),
            ambient_fat_years_threshold: 5,
            ambient_gap_years: 4,
            famine: strs(&["The rations ran out; {losses} were lost to the hunger."]),
            fabrication: strs(&["The fabricators turned spare power into {parts} parts."]),
            food_spoilage: strs(&["{spoiled} tonnes of stores spoiled in the holds."]),
            life_support_loss: strs(&["The thin air took {losses}."]),
            fuel_stall: strs(&["The tanks ran dry; the ship coasted in the cold."]),
            coming_of_age: strs(&["Generation {generation} comes of age: {births} new hands."]),
            fuel_report_gap_years: 5,
            fuel_gain: strs(&["The scoop gathered {amount} measures of fuel."]),
            milestone: strs(&["A milestone: {milestone}."]),
            council_summons: strs(&["The council gathers: {title}."]),
        },
        heir_min_age: 18,
        heir_max_age: 60,
        member_max_age: 100,
        leader_retirement_age: 70,
        dilemma_chance_per_generation: 500_000,
        event_chance_base: 200_000,
        event_chance_cap: 800_000,
        low_food_threshold: 200,
        low_energy_threshold: 100,
        hull_warning_threshold: 400_000,
        life_support_warning_threshold: 400_000,
        rival_approval_spillover: 250_000,
        ally_approval_spillover: 250_000,
        influence_governance_threshold: 400_000,
        influence_governance_floor: 300_000,
        low_energy_production_shed: 500_000,
        provisioning: ProvisioningConfig { fuel_burn_per_travel_month: 2_000, no_fuel_decay_multiplier: 2 * ONE },
        food_per_person_per_year: 1_000_000,
        lean_food_threshold: 500,
        fat_food_threshold: 20_000,
        surplus_energy_threshold: 800,
        fabrication_energy_cost: 300,
        fabrication_minerals_cost: 50,
        fabrication_parts_yield: 10,
        food_carrying_capacity: 50_000,
        food_spoilage_fraction: 100_000,
        chronic_hunger_years: 3,
        chronic_hunger_morale_drain: 20_000,
        sustained_plenty_morale_lift: 10_000,
        becalmed_morale_drain: 30_000,
        parts_upkeep_per_year: 2,
        maintenance_decay_relief: 500_000,
        hull_decay_per_year: 10_000,
        life_support_decay_per_year: 8_000,
        approval_unity_coupling: 100_000,
        ideology_spread_stability_penalty: 50_000,
        ideology_spread_threshold: 1_000_000,
        generation_interval_years: 25,
        campaign_skeleton: CampaignSkeletonConfig {
            drift_beats: vec![300_000, 600_000],
            drift_beat_family: "legacy_drift".to_string(),
            adaptation_beats: vec![400_000],
            adaptation_beat_family: "biology_medical".to_string(),
            crisis_beats: vec![400_000, 200_000],
            crisis_beat_family: "diplomacy".to_string(),
            loyalty_beats: vec![400_000],
            loyalty_beat_family: "ethics".to_string(),
            stability_beats: vec![400_000],
            stability_beat_family: "diplomacy".to_string(),
            subsystem_beats: vec![SubsystemBeat {
                subsystem: "life_support_habitat".to_string(),
                threshold: 300_000,
                family: "survival".to_string(),
            }],
            hull_beat_family: "engineering".to_string(),
            hull_beat_threshold: 300_000,
            reputation_beat_trait: "mercy".to_string(),
            reputation_beat_family: "ethics".to_string(),
            reputation_beat_high: 800_000,
            reputation_beat_low: 200_000,
            recovery_beat_family: "diplomacy".to_string(),
            recovery_beat_threshold: 600_000,
            flourish_beats: vec![850_000],
            flourish_beat_family: "survival".to_string(),
            depopulation_beats: vec![700_000, 400_000],
            depopulation_beat_family: "survival".to_string(),
            objective_beats: vec![500_000],
            objective_beat_family: "exploration_first_contact".to_string(),
            homecoming_beat_family: "legacy_drift".to_string(),
            midvoyage_beat_family: "legacy_drift".to_string(),
            founding_beat_family: "legacy_drift".to_string(),
            founding_beat_year: 80,
            power_transition_beat_family: "diplomacy".to_string(),
            anniversary_years: 50,
            anniversary_beat_family: "legacy_drift".to_string(),
            succession_beat_family: "ethics".to_string(),
            long_reign_years: 30,
            long_reign_beat_family: "ethics".to_string(),
            dynasty_crisis_size: 2,
            dynasty_crisis_beat_family: "ethics".to_string(),
            dead_air_years: 10,
            dead_air_pool: strs(&["survival", "engineering"]),
        },
        starting_population: 1_000,
        log_limit: 500,
    }
}

fn tier(severity_reduction: i64, weight_multiplier: i64, credits: i64, flavor: &str) -> TierDef {
    TierDef {
        severity_reduction,
        weight_multiplier,
        cost: ResourceDelta { credits: -credits, energy: 0, minerals: -credits / 2, food: 0, influence: 0 },
        flavor: flavor.to_string(),
    }
}

fn module(id: &str, name: &str, buffers: &str) -> SubsystemDef {
    SubsystemDef {
        id: id.to_string(),
        name: name.to_string(),
        buffers_family: buffers.to_string(),
        tiers: vec![
            tier(200_000, 800_000, 1_000, &format!("The {} is rebuilt to a sturdier pattern.", name)),
            tier(400_000, 600_000, 2_000, &format!("The {} is refitted with salvaged alloys.", name)),
            tier(600_000, 400_000, 4_000, &format!("The {} reaches its finest form.", name)),
        ],
        repair_knowledge_required: 500_000,
        repair_minerals_cost: 50,
        repair_parts_cost: 5,
        decay_per_year: 20_000,
    }
}

fn people(id: &str, name: &str, ideology: i64, tends: &str, rivals: &[&str], allies: &[&str]) -> FactionDef {
    FactionDef {
        id: id.to_string(),
        name: name.to_string(),
        ideology,
        tends: tends.to_string(),
        ambient: strs(&[&format!("{} keep the rhythm of the decks.", name)]),
        rivals: strs(rivals),
        allies: strs(allies),
    }
}

fn effect(log: &str) -> DilemmaEffect {
    DilemmaEffect {
        resource_delta: no_resources(),
        ship_delta: no_ship(),
        population_delta: no_people(),
        tradition_points: 0,
        body_horror_events: 0,
        existential_dread: 0,
        piracy_reputation: 0,
        log: log.to_string(),
    }
}

fn legacies() -> Vec<LegacyDef> {
    let mut protect_ok = effect("The archive is sealed and kept.");
    protect_ok.tradition_points = 10;
    let mut protect_bad = effect("The purge takes the stacks anyway.");
    protect_bad.resource_delta.food = -50;
    protect_bad.population_delta.morale = -50_000;
    let mut clinic_ok = effect("The clinic's grafts take.");
    clinic_ok.body_horror_events = 1;
    clinic_ok.population_delta.adaptation = 50_000;
    let mut clinic_bad = effect("The grafts reject.");
    clinic_bad.body_horror_events = 2;
    let raid = effect("The raid succeeds.");
    vec![
        LegacyDef {
            id: "preservers".to_string(),
            name: "Preservers".to_string(),
            dilemmas: vec![DilemmaDef {
                id: "archive_purge".to_string(),
                title: "The Archive Purge".to_string(),
                options: vec![DilemmaOption {
                    id: "protect".to_string(),
                    label: "Protect the archive".to_string(),
                    success_chance: 600_000,
                    success: protect_ok,
                    failure: protect_bad,
                    dominant_faction: String::new(),
                    dominant_faction_odds: 0,
                }],
            }],
        },
        LegacyDef {
            id: "adaptors".to_string(),
            name: "Adaptors".to_string(),
            dilemmas: vec![DilemmaDef {
                id: "gene_clinic".to_string(),
                title: "The Gene Clinic".to_string(),
                options: vec![DilemmaOption {
                    id: "open".to_string(),
                    label: "Open the clinic".to_string(),
                    success_chance: 650_000,
                    success: clinic_ok,
                    failure: clinic_bad,
                    dominant_faction: String::new(),
                    dominant_faction_odds: 0,
                }],
            }],
        },
        LegacyDef {
            id: "wanderers".to_string(),
            name: "Wanderers".to_string(),
            dilemmas: vec![DilemmaDef {
                id: "the_raid".to_string(),
                title: "The Raid".to_string(),
                options: vec![DilemmaOption {
                    id: "strike".to_string(),
                    label: "Strike the convoy".to_string(),
                    success_chance: 650_000,
                    success: raid.clone(),
                    failure: raid,
                    dominant_faction: String::new(),
                    dominant_faction_odds: 0,
                }],
            }],
        },
    ]
}

fn segment(kind: ContractPhase, years: u32) -> PhaseSegment {
    PhaseSegment { kind, years }
}

fn charter(id: &str, name: &str) -> ContractTemplate {
    ContractTemplate {
        id: id.to_string(),
        name: name.to_string(),
        objective: ContractObjective::Mining,
        target_duration_years: 340,
        phases: vec![
            segment(ContractPhase::Travel, 20),
            segment(ContractPhase::Operation, 300),
            segment(ContractPhase::Return, 20),
        ],
        success_metrics: vec![SuccessMetric {
            id: "done".to_string(),
            kind: MetricKind::MissionCompletion,
            name: "Mission".to_string(),
            weight: ONE,
            target: ONE,
        }],
        milestones: vec![],
        objective_target: 1_000,
        objective_unit: "tonnes".to_string(),
        tags: vec![],
        hazard: 0,
        objective_subsystem: String::new(),
        reward: ResourceDelta { credits: 5_000, energy: 0, minerals: 0, food: 0, influence: 0 },
        requires_faction_aboard: vec![],
        requires_consequence: vec![],
        forbidden_consequence: vec![],
        min_reputation: vec![],
        max_reputation: vec![],
        completion_reward: CompletionReward {
            resource: no_resources(),
            population: no_people(),
            subsystem_deltas: vec![],
            reputation_deltas: vec![],
            faction_approval_deltas: vec![],
            log: String::new(),
        },
        abandonment: Abandonment { reputation_deltas: vec![], log: String::new() },
        completion_consequence: String::new(),
        annual_toll: AnnualToll { resource: no_resources(), ship: no_ship(), population: no_people() },
        scheduled_beats: vec![],
    }
}

fn named(id: &str, delta: i64) -> NamedDelta {
    NamedDelta { id: id.to_string(), delta }
}

fn rep_gate(id: &str, threshold: i64) -> ReputationGate {
    ReputationGate { id: id.to_string(), threshold }
}

fn charters() -> Vec<ContractTemplate> {
    let mut survey = charter("deep_vein_survey", "Deep Vein Survey");
    survey.completion_consequence = "proved_the_veins".to_string();
    let mut sanctuary = charter("the_sanctuary_run", "The Sanctuary Run");
    sanctuary.min_reputation = vec![rep_gate("mercy", 700_000)];
    sanctuary.completion_reward.reputation_deltas = vec![named("mercy", 100_000)];
    sanctuary.completion_reward.faction_approval_deltas = vec![named("hearth_union", 150_000)];
    sanctuary.completion_reward.log = "The refugees step onto a new world.".to_string();
    sanctuary.abandonment = Abandonment {
        reputation_deltas: vec![named("mercy", -100_000), named("resolve", -100_000)],
        log: "The refugees are left behind.".to_string(),
    };
    let mut hard = charter("the_hard_contract", "The Hard Contract");
    hard.max_reputation = vec![rep_gate("mercy", 300_000)];
    hard.completion_reward.reputation_deltas = vec![named("mercy", -100_000)];
    hard.completion_reward.log = "The writ is enforced.".to_string();
    hard.abandonment = Abandonment {
        reputation_deltas: vec![named("mercy", 100_000), named("resolve", -100_000)],
        log: "The ship will not finish the cruel job.".to_string(),
    };
    let mut works = charter("the_karst_works", "The Karst Works");
    works.requires_consequence = strs(&["proved_the_veins"]);
    works.forbidden_consequence = strs(&["broke_a_bargain"]);
    works.completion_reward.subsystem_deltas =
        vec![SubsystemDelta { id: "engineering_bay".to_string(), condition: 0, knowledge: 200_000 }];
    works.completion_reward.log = "The works master extraction for good.".to_string();
    let mut writ = charter("the_seedbearers_writ", "The Seedbearers' Writ");
    writ.requires_faction_aboard = strs(&["verdant_kin"]);
    let founding = charter("founding_colony", "The Founding Colony");
    vec![survey, sanctuary, hard, works, writ, founding]
}

fn component(id: &str, kind: ComponentKind, cargo: i32, speed: i32, combat: i32) -> ShipComponent {
    ShipComponent {
        id: id.to_string(),
        kind,
        name: id.to_string(),
        stats: ComponentStats { cargo, crew_capacity: 0, speed, combat, fuel_regen: 0 },
    }
}

fn data() -> GameData {
    GameData {
        config: config(),
        ship_components: vec![
            component("colony_barge", ComponentKind::Hull, 200, 0, 0),
            component("ion_drive", ComponentKind::Engine, 0, 2, 0),
            component("mass_driver", ComponentKind::Weapon, 0, 0, 5),
        ],
        subsystems: vec![
            module("medical_bay", "Medical Bay", "biology_medical"),
            module("agriculture", "Hydroponic Decks", "survival"),
            module("engineering_bay", "Engineering Bay", "engineering"),
            module("education_culture", "Culture Archive", "legacy_drift"),
            module("life_support_habitat", "Life Support Plant", "ethics"),
            module("security", "Security Corps", "diplomacy"),
        ],
        legacies: legacies(),
        factions: vec![
            people("hearth_union", "the Hearth Union", -200_000, "agriculture", &["steel_covenant"], &["verdant_kin"]),
            people("verdant_kin", "the Verdant Kin", 100_000, "agriculture", &["steel_covenant"], &["hearth_union"]),
            people("meridian_accord", "the Meridian Accord", 0, "security", &[], &[]),
            people("steel_covenant", "the Steel Covenant", 400_000, "engineering_bay", &["verdant_kin"], &[]),
            people("first_flame", "the Keepers of the First Flame", -600_000, "education_culture", &[], &[]),
            people("ascension_circle", "the Ascension Circle", 800_000, "medical_bay", &[], &[]),
        ],
        crew_archetypes: vec![
            CrewArchetype { id: "engineer".to_string(), name: "Chief Engineer".to_string() },
            CrewArchetype { id: "medic".to_string(), name: "Ship's Surgeon".to_string() },
        ],
        contracts: charters(),
        events: vec![],
        member_names: strs(&["Ada", "Bram", "Cato", "Dara", "Eun", "Fenn"]),
    }
}

fn member(id: u32, name: &str, age: u32, leadership: u32, is_leader: bool) -> DynastyMember {
    DynastyMember { id, name: name.to_string(), age, leadership, is_leader }
}

fn faction(id: &str, members: u32) -> FactionState {
    FactionState {
        faction_id: id.to_string(),
        members,
        status: FactionStatus::Aboard,
        approval: default_approval(),
        mood_band: 0,
    }
}

fn fresh_module(id: &str) -> SubsystemState {
    SubsystemState { id: id.to_string(), tier: 0, condition: ONE, knowledge: 800_000 }
}

fn campaign(legacy: &str, seed: u64) -> SimState {
    SimState {
        rolls: tape(seed),
        year: 0,
        month_clock: 0,
        last_event_month_clock: 0,
        market: Market {
            entries: vec![
                MarketEntry { resource: TradeResource::Energy, price: 2_000_000, trend: 0 },
                MarketEntry { resource: TradeResource::Minerals, price: 3_000_000, trend: 0 },
                MarketEntry { resource: TradeResource::Food, price: 1_500_000, trend: 0 },
                MarketEntry { resource: TradeResource::Influence, price: 10_000_000, trend: 0 },
            ],
            impact_per_unit: 200,
        },
        resources: ResourceState { credits: 2_000, energy: 500, minerals: 500, food: 2_000, influence: 100 },
        ship: ShipState {
            hull_integrity: ONE,
            life_support: ONE,
            fuel: ONE,
            spare_parts: 20,
            hull: "colony_barge".to_string(),
            engine: "ion_drive".to_string(),
            weapon: None,
            salvage: vec![],
        },
        population: PopulationState {
            count: 1_000,
            morale: 700_000,
            unity: 700_000,
            stability: 700_000,
            legacy_loyalty: 800_000,
            adaptation: 0,
            cultural_drift: 0,
        },
        legacy: LegacyTrack {
            legacy_id: legacy.to_string(),
            tradition_points: 50,
            body_horror_events: 0,
            existential_dread: 0,
            piracy_reputation: 0,
        },
        dynasty: Dynasty {
            members: vec![
                member(1, "Ada", 45, 7, true),
                member(2, "Bram", 30, 8, false),
                member(3, "Cato", 22, 4, false),
                member(4, "Dara", 10, 3, false),
            ],
            designated_heir: None,
            extinct: false,
            generation: 1,
            years_since_generation: 0,
            births_this_generation: 0,
            next_member_id: 5,
            leader_reign_years: 0,
            long_reign_marked: false,
            dynasty_crisis_marked: false,
        },
        crew: vec![
            CrewMember { id: 1, name: "Oren".to_string(), age: 35, archetype_id: "engineer".to_string() },
            CrewMember { id: 2, name: "Sela".to_string(), age: 41, archetype_id: "medic".to_string() },
        ],
        contract: None,
        pending_dilemma: None,
        pending_event: None,
        log: vec![],
        factions: vec![faction("hearth_union", 400), faction("verdant_kin", 350), faction("meridian_accord", 250)],
        consequences: vec![],
        reputation: vec![],
        subsystems: vec![
            fresh_module("medical_bay"),
            fresh_module("agriculture"),
            fresh_module("engineering_bay"),
            fresh_module("education_culture"),
            fresh_module("life_support_habitat"),
            fresh_module("security"),
        ],
        event_fire_counts: vec![],
        lean_food_years: 0,
        fat_food_years: 0,
        scheduled_events: vec![],
        production: ProductionRates {
            credits: 100 * ONE,
            energy: 80 * ONE,
            minerals: 60 * ONE,
            food: 1_100 * ONE,
            influence: 10 * ONE,
        },
        stalled_months: 0,
        fuel_stalled_this_year: false,
        fuel_stall_years: 0,
        fuel_scooped_accum: 0,
        delegation: vec![],
        subsystem_beats_fired: vec![],
        hull_beat_band: 0,
        reputation_beat_band: 0,
        depopulation_beats_fired: 0,
        founding_beat_fired: false,
        last_dominant_faction: String::new(),
    }
}

fn module_mut<'a>(sim: &'a mut SimState, id: &str) -> &'a mut SubsystemState {
    sim.subsystems.iter_mut().find(|s| s.id == id).unwrap()
}

fn module_of<'a>(sim: &'a SimState, id: &str) -> &'a SubsystemState {
    sim.subsystems.iter().find(|s| s.id == id).unwrap()
}

fn approval_of(sim: &SimState, id: &str) -> i64 {
    sim.factions.iter().find(|f| f.faction_id == id).unwrap().approval
}

fn set_reputation(sim: &mut SimState, id: &str, value: i64) {
    match sim.reputation.iter_mut().find(|r| r.id == id) {
        Some(r) => r.value = value,
        None => sim.reputation.push(ReputationEntry { id: id.to_string(), value }),
    }
}

fn charter_of(data: &GameData, id: &str) -> ContractTemplate {
    data.contracts.iter().find(|c| c.id == id).unwrap().clone()
}
