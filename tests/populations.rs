use herd_epi::farm_store::{FarmStore, PopulationError, MAX_HERD_SIZE};
use herd_epi::populations::{
    combine_population_records, AdjacentFarms, Cattle, CattleFarmBundle, EmbeddedPopulation,
    FarmBundle, FarmId, HerdSize, PopulationListingError, TotalFarms,
};
use herd_epi::scenario_builder::{ScenarioBuilder, ScenarioError, ScenarioParameter, DEFAULT_SEED};
use herd_epi::sir_spread_model::{DiseaseCompartments, DiseaseParameters};
use herd_epi::parameters::Rate;

fn bundle(id: usize, herd: usize, adjacent: Vec<usize>) -> FarmBundle {
    FarmBundle::new(
        EmbeddedPopulation::Cattle(Cattle),
        FarmId::new_single_population(id),
        HerdSize::new_single_population(herd),
        AdjacentFarms::new_single_population(adjacent.into_iter().map(FarmId).collect()),
    )
}

#[test]
fn test_total_farms() {
    let total_sheep = TotalFarms::new_single_population(80);
    let total_cattle = TotalFarms::new_single_population(140);
    let total_pig = TotalFarms::new_single_population(350);
    println!("{:?} {:?} {:?}", total_sheep, total_cattle, total_pig);
    assert_eq!(total_sheep.0, 80);
    assert_eq!(total_cattle.0, 140);
    assert_eq!(total_pig.0, 350);

    let herd_size = HerdSize::new_single_population(1000);
    println!("{:?}", herd_size);
    assert_eq!(herd_size.0, 1000);
}

#[test]
fn test_default_population() {
    let total_farms = TotalFarms::new_single_population(123);
    println!("{:?}", total_farms);
    assert_eq!(total_farms, TotalFarms(123));
}

#[test]
fn test_default_scenario() {
    let default_world = ScenarioBuilder::new();
    assert_eq!(default_world.seed(), 20210426, "default seed has changed?");
}

#[test]
fn store_keeps_order_and_starts_susceptible() {
    let store = FarmStore::from_bundles(vec![bundle(7, 50, vec![3]), bundle(3, 20, vec![7])])
        .unwrap();
    assert_eq!(store.num_farms(), 2);
    assert_eq!(store.handle_of(FarmId(7)), Some(0));
    assert_eq!(store.handle_of(FarmId(3)), Some(1));
    assert_eq!(store.handle_of(FarmId(9)), None);
    assert_eq!(store.compartments_of(0), DiseaseCompartments::new(50));
    let snapshot = store.snapshot();
    assert_eq!(snapshot[1].0, FarmId(3));
    assert_eq!(snapshot[1].1 .0, 20);
    assert_eq!(snapshot[1].2 .0, 0);
}

#[test]
fn store_rejects_duplicate_ids_and_bad_herds() {
    assert_eq!(
        FarmStore::from_bundles(vec![bundle(1, 5, vec![]), bundle(1, 6, vec![])]).unwrap_err(),
        PopulationError::DuplicateFarmId(FarmId(1))
    );
    assert_eq!(
        FarmStore::from_bundles(vec![bundle(1, 0, vec![])]).unwrap_err(),
        PopulationError::InvalidHerdSize(FarmId(1))
    );
    assert_eq!(
        FarmStore::from_bundles(vec![bundle(2, MAX_HERD_SIZE + 1, vec![])]).unwrap_err(),
        PopulationError::InvalidHerdSize(FarmId(2))
    );
    assert!(FarmStore::from_bundles(vec![bundle(2, MAX_HERD_SIZE, vec![])]).is_ok());
    assert!(FarmStore::from_bundles(vec![]).is_ok());
}

#[test]
fn cattle_bundle_becomes_cattle_farm() {
    let c = CattleFarmBundle {
        cattle_farm: Cattle,
        farm_id: FarmId(4),
        herd_size: HerdSize(9),
        adjacent_farms: AdjacentFarms(vec![FarmId(5)]),
    };
    let f = c.into_farm_bundle();
    assert_eq!(f.population, EmbeddedPopulation::Cattle(Cattle));
    assert_eq!(f.farm_id, FarmId(4));
    assert_eq!(f.adjacent_farms.0, vec![FarmId(5)]);
}

#[test]
fn builder_validates_parameters() {
    let mut b = ScenarioBuilder::new().set_seed(5);
    assert_eq!(b.seed(), 5);
    let params = DiseaseParameters::new(Rate(1), Rate(1));
    assert_eq!(
        b.add_parameter(ScenarioParameter::Disease(params), EmbeddedPopulation::Default),
        Err(ScenarioError::UnknownPopulation)
    );
    b.add_population(EmbeddedPopulation::Cattle(Cattle), vec![bundle(1, 10, vec![])]);
    assert_eq!(b.farms.len(), 1);
    assert_eq!(
        b.add_parameter(ScenarioParameter::Disease(params), EmbeddedPopulation::Cattle(Cattle)),
        Ok(())
    );
    assert_eq!(b.disease_parameters, Some(params));
    assert_eq!(b.build().unwrap_err(), ScenarioError::MissingContactRate);
    assert_eq!(DEFAULT_SEED, 20210426);
}

#[test]
fn population_listings_combine() {
    let records = vec![(FarmId(1), HerdSize(10)), (FarmId(2), HerdSize(20))];
    let adjacency = vec![
        (FarmId(1), AdjacentFarms(vec![FarmId(2)])),
        (FarmId(2), AdjacentFarms(vec![FarmId(1)])),
    ];
    let farms = combine_population_records(records.clone(), adjacency.clone()).unwrap();
    assert_eq!(farms.len(), 2);
    assert_eq!(farms[1].farm_id, FarmId(2));
    assert_eq!(farms[1].herd_size, HerdSize(20));
    assert_eq!(farms[1].adjacent_farms, AdjacentFarms(vec![FarmId(1)]));
    assert_eq!(
        combine_population_records(records.clone(), adjacency[..1].to_vec()).unwrap_err(),
        PopulationListingError::LengthMismatch
    );
    let swapped = vec![adjacency[0].clone(), (FarmId(3), AdjacentFarms(vec![]))];
    assert_eq!(
        combine_population_records(records, swapped).unwrap_err(),
        PopulationListingError::FarmIdMismatch(1)
    );
}
