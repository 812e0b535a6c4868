use rand::rngs::StdRng;
use rand::SeedableRng;

use herd_epi::between_herd_spread_model::{
    apply_contact, contact_decision, select_origins, Origin, setup_between_herd_spread_model, update_between_herd_spread_model,
    BetweenHerdSpreadModel, ContactRate,
};
use herd_epi::between_herd_spread_exogenous_model::{
    update_exogenous_infection_rate, update_exogenous_infection_rate_outside_of_disease_model,
    ExogenousInfectionRate,
};
use herd_epi::chain_tools::dispose;
use herd_epi::errors::SimulationError;
use herd_epi::farm_store::FarmStore;
use herd_epi::parameters::{ConversionError, Probability, Rate, PARTS_PER_UNIT};
use herd_epi::populations::{AdjacentFarms, Cattle, EmbeddedPopulation, FarmBundle, FarmId, HerdSize};
use herd_epi::random::{
    bernoulli, bernoulli_outcome, bernoulli_ratio, ratio_outcome, round_stoch, round_with_draw,
};
use herd_epi::regulator_active_surveillance::{
    detected_with_draw, regulate_farm, update_active_surveillance, ActiveSurveillance,
    CullingPolicy, DetectionRate, RemainingProportion,
};
use herd_epi::regulator_passive_surveillance::{setup_passive_surveillance, update_passive_surveillance};
use herd_epi::scenario_builder::{
    terminate_if_outbreak_is_over, Scenario, ScenarioBuilder, ScenarioConfiguration, ScenarioError,
    ScenarioParameter,
};
use herd_epi::scenario_time::ScenarioTime;
use herd_epi::sir_spread_model::{
    advance_farm, apply_within_herd, seed_farm, seed_infected_everywhere, seed_infection_random,
    update_disease_compartments, DiseaseCompartments, DiseaseParameters, Infected, Recovered,
    Susceptible,
};

const CATTLE: EmbeddedPopulation = EmbeddedPopulation::Cattle(Cattle);

fn bundle(id: usize, herd: usize, adjacent: Vec<usize>) -> FarmBundle {
    FarmBundle::new(
        CATTLE,
        FarmId(id),
        HerdSize(herd),
        AdjacentFarms(adjacent.into_iter().map(FarmId).collect()),
    )
}

fn compartments(s: usize, i: usize, r: usize) -> DiseaseCompartments {
    DiseaseCompartments {
        susceptible: Susceptible(s),
        infected: Infected(i),
        recovered: Recovered(r),
    }
}

fn ring(n: usize, herd: usize) -> Vec<FarmBundle> {
    (0..n)
        .map(|i| bundle(i, herd, vec![(i + 1) % n, (i + n - 1) % n]))
        .collect()
}

fn scenario(seed: u64, farms: Vec<FarmBundle>, detection: u64) -> Scenario {
    let mut b = ScenarioBuilder::new().set_seed(seed);
    b.add_population(CATTLE, farms);
    let disease = DiseaseParameters::new(Rate(30_000_000), Rate(10_000_000));
    b.add_parameter(ScenarioParameter::Disease(disease), CATTLE).unwrap();
    b.add_parameter(ScenarioParameter::Contact(ContactRate::new(Probability(95_000_000))), CATTLE)
        .unwrap();
    let active = ActiveSurveillance::new(
        DetectionRate::new(Probability(detection)),
        RemainingProportion::new(Probability(100_000_000)),
        CullingPolicy::Vanish,
    );
    b.add_parameter(ScenarioParameter::Active(active), CATTLE).unwrap();
    b.add_parameter(
        ScenarioParameter::PassiveDetection(DetectionRate::new(Probability(detection))),
        CATTLE,
    )
    .unwrap();
    b.build().unwrap()
}

#[test]
fn round_stochastically() {
    let mut rng = StdRng::seed_from_u64(202105);
    let a = round_stoch(&mut rng, 12, 10);
    let b = round_stoch(&mut rng, 18, 10);
    println!("{} {}", a, b);
    assert!(a == 1 || a == 2);
    assert!(b == 1 || b == 2);
}

#[test]
fn stochastic_rounding_is_unbiased() {
    let mut rng = StdRng::seed_from_u64(7);
    let trials = 200_000u32;
    let mut sum = 0u128;
    for _ in 0..trials {
        sum += round_stoch(&mut rng, 37, 10);
    }
    let mean = sum as f64 / trials as f64;
    assert!((mean - 3.7).abs() < 0.01, "mean {}", mean);
    let exact: u128 = (0..10).map(|d| round_with_draw(37, 10, d)).sum();
    assert_eq!(exact, 37);
}

#[test]
fn random_decisions_from_draws() {
    assert_eq!(round_with_draw(12, 10, 1), 2);
    assert_eq!(round_with_draw(12, 10, 2), 1);
    assert_eq!(round_with_draw(20, 10, 0), 2);
    assert!(bernoulli_outcome(Probability(5), 4));
    assert!(!bernoulli_outcome(Probability(5), 5));
    assert!(ratio_outcome(3, 2));
    assert!(!ratio_outcome(3, 3));
    let mut rng = StdRng::seed_from_u64(1);
    for _ in 0..100 {
        assert!(bernoulli(&mut rng, Probability(PARTS_PER_UNIT)));
        assert!(!bernoulli(&mut rng, Probability(0)));
        assert!(bernoulli_ratio(&mut rng, 5, 5));
        assert!(!bernoulli_ratio(&mut rng, 0, 5));
    }
}

#[test]
fn rates_and_probabilities() {
    assert_eq!(Rate::new(-1), Err(ConversionError::NegativeRate));
    assert_eq!(Rate::new(1_500_000_000), Ok(Rate(1_500_000_000)));
    assert_eq!(Probability::new(-1), Err(ConversionError::NotInbetweenZeroAndOne));
    assert_eq!(
        Probability::new(1_000_000_001),
        Err(ConversionError::NotInbetweenZeroAndOne)
    );
    assert_eq!(Probability::new(1_000_000_000), Ok(Probability(1_000_000_000)));
    assert_eq!(Probability(250_000_000).complement(), Probability(750_000_000));
    let half = Probability(500_000_000);
    assert_eq!(Probability::compound(&[half, half]), Probability(750_000_000));
    assert_eq!(Probability::compound(&[]), Probability(0));
    assert_eq!(half.compound_repeated(2), Probability(750_000_000));
    assert_eq!(half.compound_repeated(0), Probability(0));
    assert_eq!(Probability(PARTS_PER_UNIT).compound_repeated(3), Probability(PARTS_PER_UNIT));
    assert_eq!(Probability(100_000_000).compound_repeated(2), Probability(190_000_000));
    assert!(!ConversionError::NegativeRate.message().is_empty());
}

#[test]
fn within_herd_step_from_draws() {
    let c = compartments(60, 40, 0);
    let herd = HerdSize(100);
    let params = DiseaseParameters::new(Rate(500_000_000), Rate(250_000_000));
    // expected infections 0.5 * 60 * 40 / 100 = 12, recoveries 0.25 * 40 = 10
    let next = advance_farm(c, herd, params, 0, 0).unwrap();
    assert_eq!(next, compartments(48, 42, 10));
    assert_eq!(apply_within_herd(c, herd, 12, 10), compartments(48, 42, 10));
    // recoveries beyond the infected: infected stops at zero, then gains the new infections
    assert_eq!(apply_within_herd(compartments(5, 3, 1), HerdSize(9), 1, 7), compartments(4, 1, 8));
    // one farm with S=1, I=1, N=2, infection rate 2 and recovery rate 3, draws 0
    let steep = DiseaseParameters::new(Rate(2 * PARTS_PER_UNIT), Rate(3 * PARTS_PER_UNIT));
    assert_eq!(advance_farm(compartments(1, 1, 0), HerdSize(2), steep, 0, 0), Some(compartments(0, 1, 3)));
    let greedy = DiseaseParameters::new(Rate(10 * PARTS_PER_UNIT), Rate(0));
    assert_eq!(advance_farm(compartments(50, 50, 0), HerdSize(100), greedy, 0, 0), None);
}

#[test]
fn within_herd_conserves_and_bounds() {
    let mut store = FarmStore::from_bundles(ring(5, 200)).unwrap();
    for h in 0..5 {
        store.compartments[h] = compartments(200 - 10 * h - 1, 10 * h + 1, 0);
    }
    let params = DiseaseParameters::new(Rate(300_000_000), Rate(100_000_000));
    let mut rng = StdRng::seed_from_u64(3);
    let mut model = setup_between_herd_spread_model(Some(ContactRate(Probability(PARTS_PER_UNIT))))
        .unwrap();
    let mut time = ScenarioTime::new(1, None);
    for _ in 0..60 {
        let before = store.snapshot();
        update_disease_compartments(&mut store, &params, &mut rng).unwrap();
        let mid = store.snapshot();
        for (b, m) in before.iter().zip(mid.iter()) {
            assert!(m.1 .0 <= b.1 .0, "new infections exceed the susceptible animals");
        }
        time.update_time(1);
        update_between_herd_spread_model(&mut model, &mut store, &mut rng, &time).unwrap();
        for (h, f) in store.snapshot().iter().enumerate() {
            assert_eq!(f.1 .0 + f.2 .0 + f.3 .0, 200, "farm {}", h);
        }
    }
}

#[test]
fn within_herd_too_many_infections_fails() {
    let mut store = FarmStore::from_bundles(vec![bundle(4, 100, vec![])]).unwrap();
    store.compartments[0] = compartments(50, 50, 0);
    let params = DiseaseParameters::new(Rate(10 * PARTS_PER_UNIT), Rate(0));
    let mut rng = StdRng::seed_from_u64(3);
    assert_eq!(
        update_disease_compartments(&mut store, &params, &mut rng),
        Err(SimulationError::InfectionsExceedSusceptible(FarmId(4)))
    );
}

#[test]
fn seeding() {
    let mut rng = StdRng::seed_from_u64(11);
    let mut empty = FarmStore::from_bundles(vec![]).unwrap();
    assert_eq!(seed_infection_random(&mut empty, &mut rng), Err(SimulationError::NoFarms));
    assert_eq!(seed_infected_everywhere(&mut empty), Err(SimulationError::NoFarms));

    let mut store = FarmStore::from_bundles(ring(3, 10)).unwrap();
    seed_infection_random(&mut store, &mut rng).unwrap();
    let infected: usize = store.snapshot().iter().map(|f| f.2 .0).sum();
    assert_eq!(infected, 1);
    seed_infected_everywhere(&mut store).unwrap();
    let infected: usize = store.snapshot().iter().map(|f| f.2 .0).sum();
    assert_eq!(infected, 4);

    store.compartments[1] = compartments(0, 10, 0);
    let before = store.snapshot();
    assert_eq!(
        seed_infected_everywhere(&mut store),
        Err(SimulationError::NoSusceptible(FarmId(1)))
    );
    assert_eq!(store.snapshot(), before);

    let mut one = FarmStore::from_bundles(vec![bundle(8, 3, vec![])]).unwrap();
    one.compartments[0] = compartments(0, 3, 0);
    assert_eq!(
        seed_infection_random(&mut one, &mut rng),
        Err(SimulationError::NoSusceptible(FarmId(8)))
    );
}

#[test]
fn contacts_infect_live_targets() {
    let mut store = FarmStore::from_bundles(vec![bundle(1, 2, vec![2]), bundle(2, 2, vec![1])])
        .unwrap();
    assert_eq!(apply_contact(&mut store, FarmId(2)), Ok(true));
    assert_eq!(store.compartments[1], compartments(1, 1, 0));
    assert_eq!(apply_contact(&mut store, FarmId(2)), Ok(true));
    assert_eq!(apply_contact(&mut store, FarmId(2)), Ok(false));
    assert_eq!(store.compartments[1], compartments(0, 2, 0));
    assert_eq!(apply_contact(&mut store, FarmId(9)), Err(SimulationError::UnknownFarm(FarmId(9))));
}

#[test]
fn selection_takes_infected_farms_only() {
    let mut store = FarmStore::from_bundles(ring(4, 10)).unwrap();
    store.compartments[1] = compartments(5, 5, 0);
    store.compartments[3] = compartments(9, 1, 0);
    let mut rng = StdRng::seed_from_u64(2);
    let all = select_origins(&store, ContactRate(Probability(PARTS_PER_UNIT)), &mut rng);
    assert_eq!(all.iter().map(|o| o.handle).collect::<Vec<_>>(), vec![1, 3]);
    assert_eq!(all[0].infected, Infected(5));
    assert!(select_origins(&store, ContactRate(Probability(0)), &mut rng).is_empty());
}

#[test]
fn between_herd_events_and_batches() {
    let mut store = FarmStore::from_bundles(vec![bundle(1, 4, vec![2]), bundle(2, 4, vec![1])])
        .unwrap();
    store.compartments[0] = compartments(0, 4, 0);
    let mut rng = StdRng::seed_from_u64(5);
    let mut model = BetweenHerdSpreadModel {
        current_batch_id: 0,
        contact_rate: ContactRate(Probability(PARTS_PER_UNIT)),
    };
    let time = ScenarioTime::new(9, None);
    let events = update_between_herd_spread_model(&mut model, &mut store, &mut rng, &time)
        .unwrap()
        .unwrap();
    assert_eq!(events.batch_id, 1);
    assert_eq!(events.scenario_tick, 9);
    assert_eq!(events.events_values, vec![(FarmId(1), FarmId(2), 1)]);
    assert_eq!(store.compartments[1], compartments(3, 1, 0));
    assert_eq!(model.current_batch_id, 1);

    let mut quiet = FarmStore::from_bundles(ring(3, 4)).unwrap();
    assert_eq!(
        update_between_herd_spread_model(&mut model, &mut quiet, &mut rng, &time),
        Ok(None)
    );
    assert_eq!(model.current_batch_id, 1);
}

#[test]
fn between_herd_errors() {
    let mut rng = StdRng::seed_from_u64(5);
    let mut model = BetweenHerdSpreadModel {
        current_batch_id: 0,
        contact_rate: ContactRate(Probability(PARTS_PER_UNIT)),
    };
    let time = ScenarioTime::new(1, None);
    let mut lonely = FarmStore::from_bundles(vec![bundle(6, 4, vec![])]).unwrap();
    lonely.compartments[0] = compartments(2, 2, 0);
    assert_eq!(
        update_between_herd_spread_model(&mut model, &mut lonely, &mut rng, &time),
        Err(SimulationError::EmptyAdjacency(FarmId(6)))
    );
    let mut broken = FarmStore::from_bundles(vec![bundle(6, 4, vec![42])]).unwrap();
    broken.compartments[0] = compartments(0, 4, 0);
    assert_eq!(
        update_between_herd_spread_model(&mut model, &mut broken, &mut rng, &time),
        Err(SimulationError::UnknownFarm(FarmId(42)))
    );
    assert!(setup_between_herd_spread_model(None).is_none());
}

#[test]
fn test_active_surveillance() {
    let counts = [0usize, 1, 10, 100, 1000, 10000, 100000];
    let farms = counts
        .iter()
        .enumerate()
        .map(|(k, &c)| bundle(k, c.max(1), vec![]))
        .collect();
    let mut store = FarmStore::from_bundles(farms).unwrap();
    for (k, &c) in counts.iter().enumerate() {
        store.compartments[k] = compartments(0, c, 0);
    }
    let mut rng = StdRng::seed_from_u64(20210507 - 10);
    let reg = ActiveSurveillance::new(
        DetectionRate::new(Probability(10_000_000)),
        RemainingProportion::new(Probability(10_000_000)),
        CullingPolicy::Vanish,
    );
    update_active_surveillance(&reg, &mut store, &mut rng);
    let after = store.snapshot();
    println!("{:?}", after);
    assert_eq!(after[0].2, Infected(0));
    for (k, &c) in counts.iter().enumerate() {
        assert!(after[k].2 .0 <= c);
    }
}

#[test]
fn active_surveillance_leaves_uninfected_farms_alone() {
    let mut store = FarmStore::from_bundles(ring(4, 10)).unwrap();
    store.compartments[2] = compartments(7, 0, 3);
    let before = store.snapshot();
    let reg = ActiveSurveillance::new(
        DetectionRate::new(Probability(PARTS_PER_UNIT)),
        RemainingProportion::new(Probability(0)),
        CullingPolicy::Vanish,
    );
    let mut rng = StdRng::seed_from_u64(9);
    let mut untouched = StdRng::seed_from_u64(9);
    update_active_surveillance(&reg, &mut store, &mut rng);
    assert_eq!(store.snapshot(), before);
    // no draw was taken: the generator is where an untouched one is
    assert_eq!(
        rand::Rng::gen_range(&mut rng, 0..u64::MAX),
        rand::Rng::gen_range(&mut untouched, 0..u64::MAX)
    );
    assert_eq!(CullingPolicy::default(), CullingPolicy::Vanish);
}

#[test]
fn surveillance_of_one_farm() {
    let c = compartments(10, 50, 5);
    let reg = ActiveSurveillance::new(
        DetectionRate::new(Probability(500_000_000)),
        RemainingProportion::new(Probability(100_000_000)),
        CullingPolicy::Vanish,
    );
    assert_eq!(regulate_farm(c, &reg, false, true, 0), c);
    assert_eq!(regulate_farm(c, &reg, true, true, 0), compartments(10, 0, 5));
    assert_eq!(regulate_farm(c, &reg, true, false, 0), compartments(10, 5, 5));
    let credit = ActiveSurveillance::new(
        reg.detection_rate,
        reg.remaining_proportion,
        CullingPolicy::CreditRecovered,
    );
    assert_eq!(regulate_farm(c, &credit, true, true, 0), compartments(10, 0, 55));
    assert_eq!(regulate_farm(c, &credit, true, false, 0), compartments(10, 5, 50));
    // one infected animal at one half: detected with probability 1/2
    assert!(detected_with_draw(DetectionRate(Probability(500_000_000)), 1, 499_999_999));
    assert!(!detected_with_draw(DetectionRate(Probability(500_000_000)), 1, 500_000_000));
    // two infected animals: 3/4
    assert!(detected_with_draw(DetectionRate(Probability(500_000_000)), 2, 749_999_999));
    assert!(!detected_with_draw(DetectionRate(Probability(500_000_000)), 0, 0));
}

#[test]
fn passive_surveillance_prevalence() {
    let mut store = FarmStore::from_bundles(ring(4, 10)).unwrap();
    store.compartments[0] = compartments(5, 5, 0);
    store.compartments[3] = compartments(9, 1, 0);
    let mut reg = setup_passive_surveillance(DetectionRate(Probability(PARTS_PER_UNIT)));
    assert!(reg.total_farms.is_none());
    let mut rng = StdRng::seed_from_u64(4);
    let time = ScenarioTime::new(30, None);
    let report = update_passive_surveillance(&mut reg, &store, &mut rng, &time);
    assert_eq!(report.total_farms, 4);
    assert_eq!(report.infected_farms, 2);
    assert_eq!(report.observed_farms, 2);
    assert_eq!(report.true_prevalence(), Probability(500_000_000));
    assert_eq!(reg.total_farms.map(|t| t.0), Some(4));

    let mut blind = setup_passive_surveillance(DetectionRate(Probability(0)));
    let report = update_passive_surveillance(&mut blind, &store, &mut rng, &time);
    assert_eq!(report.observed_farms, 0);
    assert_eq!(report.observed_prevalence(), Probability(0));
    for seed in 0..20 {
        let mut rng = StdRng::seed_from_u64(seed);
        let mut some = setup_passive_surveillance(DetectionRate(Probability(300_000_000)));
        let r = update_passive_surveillance(&mut some, &store, &mut rng, &time);
        assert!(r.observed_farms <= r.infected_farms);
        assert!(r.observed_prevalence().0 <= r.true_prevalence().0);
    }
}

#[test]
fn exogenous_infections() {
    let rate = ExogenousInfectionRate(Rate(105_000_000));
    // 100 * 0.105 = 10.5 rounds to 11
    assert_eq!(
        update_exogenous_infection_rate_outside_of_disease_model(
            compartments(100, 0, 0),
            HerdSize(100),
            rate
        ),
        compartments(89, 11, 0)
    );
    assert_eq!(
        update_exogenous_infection_rate_outside_of_disease_model(
            compartments(5, 0, 0),
            HerdSize(5),
            ExogenousInfectionRate(Rate(PARTS_PER_UNIT))
        ),
        compartments(5, 0, 0)
    );
    let mut store = FarmStore::from_bundles(ring(2, 100)).unwrap();
    update_exogenous_infection_rate(&mut store, rate);
    assert_eq!(store.compartments[1], compartments(89, 11, 0));
    dispose(store);
}

#[test]
fn fixed_seed_ring_scenario() {
    let mut s = scenario(20210426, ring(2, 100), 0);
    s.store.compartments[0] = compartments(99, 1, 0);
    let config = ScenarioConfiguration { max_timesteps: 51, min_timesteps: 3, max_repetitions: 1 };
    let mut last_batch = 0usize;
    let mut days = 0;
    loop {
        let outcome = s.run_day(false).unwrap();
        days += 1;
        if let Some(events) = outcome.events {
            assert_eq!(events.batch_id, last_batch + 1);
            last_batch = events.batch_id;
            assert!(!events.events_values.is_empty());
        }
        for f in s.store.snapshot() {
            assert_eq!(f.1 .0 + f.2 .0 + f.3 .0, 100);
        }
        if terminate_if_outbreak_is_over(&config, &s.store, &s.time) {
            break;
        }
    }
    assert!(days <= 50);
    let infected: usize = s.store.snapshot().iter().map(|f| f.2 .0).sum();
    assert!(s.time.current_time() == 51 || (infected == 0 && s.time.current_time() >= 3));
}

#[test]
fn runs_are_deterministic() {
    let run = || {
        let mut s = scenario(99, ring(6, 50), 10_000_000);
        s.seed_infection_random().unwrap();
        let mut trajectory = Vec::new();
        let mut events = Vec::new();
        for day in 0..80 {
            let outcome = s.run_day(day % 28 == 0).unwrap();
            trajectory.push(s.store.snapshot());
            events.push(outcome.events);
        }
        (trajectory, events)
    };
    assert_eq!(run(), run());
}

#[test]
fn scenario_outcomes_and_errors() {
    let mut s = scenario(1, ring(3, 20), 10_000_000);
    s.seed_infected_everywhere().unwrap();
    let outcome = s.run_day(true).unwrap();
    assert_eq!(s.time.current_time(), 2);
    let p = outcome.prevalence.unwrap();
    assert_eq!(p.total_farms, 3);
    assert!(p.observed_farms <= p.infected_farms);
    let config = ScenarioConfiguration { max_timesteps: 10, min_timesteps: 5, max_repetitions: 1 };
    assert!(!terminate_if_outbreak_is_over(&config, &s.store, &ScenarioTime::new(4, None)));
    assert!(terminate_if_outbreak_is_over(&config, &s.store, &ScenarioTime::new(10, None)));
    s.time = ScenarioTime::new(u64::MAX, None);
    assert_eq!(s.run_day(false).unwrap_err(), SimulationError::CounterExhausted);

    let quiet = FarmStore::from_bundles(ring(3, 20)).unwrap();
    assert!(terminate_if_outbreak_is_over(&config, &quiet, &ScenarioTime::new(5, None)));
    assert!(!terminate_if_outbreak_is_over(&config, &quiet, &ScenarioTime::new(4, None)));

    let mut b = ScenarioBuilder::new();
    b.add_population(CATTLE, ring(2, 10));
    assert_eq!(b.build().unwrap_err(), ScenarioError::MissingDiseaseParameters);
    let mut b = ScenarioBuilder::new();
    b.add_population(CATTLE, vec![bundle(1, 10, vec![]), bundle(1, 10, vec![])]);
    let disease = DiseaseParameters::new(Rate(1), Rate(1));
    b.add_parameter(ScenarioParameter::Disease(disease), CATTLE).unwrap();
    b.add_parameter(ScenarioParameter::Contact(ContactRate(Probability(1))), CATTLE).unwrap();
    let bad = ActiveSurveillance::new(
        DetectionRate(Probability(PARTS_PER_UNIT + 1)),
        RemainingProportion(Probability(0)),
        CullingPolicy::Vanish,
    );
    assert_eq!(b.add_parameter(ScenarioParameter::Active(bad), CATTLE), Ok(()));
    b.add_parameter(ScenarioParameter::PassiveDetection(DetectionRate(Probability(0))), CATTLE)
        .unwrap();
    assert_eq!(b.build().unwrap_err(), ScenarioError::InvalidProbability);
    let mut b = ScenarioBuilder::new();
    b.add_population(CATTLE, vec![bundle(1, 10, vec![]), bundle(1, 10, vec![])]);
    b.add_parameter(ScenarioParameter::Disease(disease), CATTLE).unwrap();
    b.add_parameter(ScenarioParameter::Contact(ContactRate(Probability(1))), CATTLE).unwrap();
    let fine = ActiveSurveillance::new(
        DetectionRate(Probability(0)),
        RemainingProportion(Probability(0)),
        CullingPolicy::Vanish,
    );
    b.add_parameter(ScenarioParameter::Active(fine), CATTLE).unwrap();
    assert_eq!(b.build().unwrap_err(), ScenarioError::MissingPassiveDetectionRate);
    let mut b = ScenarioBuilder::new();
    b.add_population(CATTLE, vec![bundle(1, 10, vec![]), bundle(1, 10, vec![])]);
    b.add_parameter(ScenarioParameter::Disease(disease), CATTLE).unwrap();
    b.add_parameter(ScenarioParameter::Contact(ContactRate(Probability(1))), CATTLE).unwrap();
    assert_eq!(b.build().unwrap_err(), ScenarioError::MissingActiveSurveillance);
    let mut b = ScenarioBuilder::new();
    b.add_population(CATTLE, vec![bundle(1, 10, vec![]), bundle(1, 10, vec![])]);
    b.add_parameter(ScenarioParameter::Disease(disease), CATTLE).unwrap();
    b.add_parameter(ScenarioParameter::Contact(ContactRate(Probability(1))), CATTLE).unwrap();
    b.add_parameter(ScenarioParameter::Active(fine), CATTLE).unwrap();
    b.add_parameter(ScenarioParameter::PassiveDetection(DetectionRate(Probability(0))), CATTLE)
        .unwrap();
    assert!(matches!(b.build().unwrap_err(), ScenarioError::Population(_)));
    assert!(!SimulationError::CounterExhausted.message().is_empty());
}

#[test]
fn seeding_a_chosen_farm() {
    let mut store = FarmStore::from_bundles(ring(3, 10)).unwrap();
    store.compartments[2] = compartments(0, 10, 0);
    assert_eq!(seed_farm(&mut store, 1), Ok(()));
    assert_eq!(store.compartments[1], compartments(9, 1, 0));
    assert_eq!(seed_farm(&mut store, 2), Err(SimulationError::NoSusceptible(FarmId(2))));
    assert_eq!(store.compartments[2], compartments(0, 10, 0));
}

#[test]
fn contact_decisions_from_draws() {
    let origin = Origin {
        handle: 0,
        farm_id: FarmId(1),
        infected: Infected(3),
        herd_size: HerdSize(10),
    };
    let adjacent = AdjacentFarms(vec![FarmId(4), FarmId(5)]);
    assert_eq!(contact_decision(&origin, &adjacent, 1, 2), (FarmId(5), true));
    assert_eq!(contact_decision(&origin, &adjacent, 0, 3), (FarmId(4), false));
}

#[test]
fn wholly_infected_farm_surely_transmits() {
    let mut store = FarmStore::from_bundles(ring(3, 5)).unwrap();
    store.compartments[0] = compartments(0, 5, 0);
    let mut model = BetweenHerdSpreadModel {
        current_batch_id: 7,
        contact_rate: ContactRate(Probability(PARTS_PER_UNIT)),
    };
    for seed in 0..20 {
        let mut s = FarmStore::from_bundles(ring(3, 5)).unwrap();
        s.compartments[0] = compartments(0, 5, 0);
        let mut rng = StdRng::seed_from_u64(seed);
        let events = update_between_herd_spread_model(&mut model, &mut s, &mut rng, &ScenarioTime::new(2, None))
            .unwrap()
            .unwrap();
        assert_eq!(events.events_values.len(), 1);
        assert_eq!(events.events_values[0].0, FarmId(0));
    }
    assert_eq!(model.current_batch_id, 27);
    dispose(store);
}

#[test]
fn contact_rate_above_one_is_refused() {
    let mut b = ScenarioBuilder::new();
    b.add_population(CATTLE, ring(2, 10));
    let disease = DiseaseParameters::new(Rate(1), Rate(1));
    b.add_parameter(ScenarioParameter::Disease(disease), CATTLE).unwrap();
    b.add_parameter(
        ScenarioParameter::Contact(ContactRate(Probability(PARTS_PER_UNIT + 1))),
        CATTLE,
    )
    .unwrap();
    let fine = ActiveSurveillance::new(
        DetectionRate(Probability(0)),
        RemainingProportion(Probability(0)),
        CullingPolicy::Vanish,
    );
    b.add_parameter(ScenarioParameter::Active(fine), CATTLE).unwrap();
    b.add_parameter(ScenarioParameter::PassiveDetection(DetectionRate(Probability(0))), CATTLE)
        .unwrap();
    assert_eq!(b.build().unwrap_err(), ScenarioError::InvalidProbability);
}
