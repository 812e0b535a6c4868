//! Farm identity and topology: ids, herd sizes, adjacency, and the species a
//! farm holds.

use vstd::prelude::*;

verus! {

/// Marker for a kind of animal population.
pub trait Population {

}

/// Cattle population.
#[derive(Debug, Clone, Copy, PartialEq, Eq, Hash, Structural)]
pub struct Cattle;

impl Population for Cattle {

}

/// Pig population.
#[derive(Debug, Clone, Copy, PartialEq, Eq, Hash, Structural)]
pub struct Pig;

impl Population for Pig {

}

/// Sheep population.
#[derive(Debug, Clone, Copy, PartialEq, Eq, Hash, Structural)]
pub struct Sheep;

impl Population for Sheep {

}

/// The population a farm belongs to, carried as a field of the farm.
#[derive(Debug, Clone, Copy, PartialEq, Eq, Hash, Structural)]
pub enum EmbeddedPopulation {
    Default,
    Cattle(Cattle),
    Pig(Pig),
    Sheep(Sheep),
}

/// Stable identity of a farm, as given by the population data.
#[derive(Debug, Clone, Copy, PartialEq, Eq, Hash, Structural)]
pub struct FarmId(pub usize);

impl FarmId {
    pub fn new_single_population(value: usize) -> (r: FarmId)
        ensures
            r.0 == value,
    {
        FarmId(value)
    }
}

/// Number of animals a farm holds.
#[derive(Debug, Clone, Copy, PartialEq, Eq, Hash, Structural)]
pub struct HerdSize(pub usize);

impl HerdSize {
    pub fn new_single_population(value: usize) -> (r: HerdSize)
        ensures
            r.0 == value,
    {
        HerdSize(value)
    }
}

/// Farms that a farm may move animals to, in a fixed order.
#[derive(Debug, Clone, PartialEq, Eq, Hash)]
pub struct AdjacentFarms(pub Vec<FarmId>);

impl AdjacentFarms {
    pub fn new_single_population(value: Vec<FarmId>) -> (r: AdjacentFarms)
        ensures
            r.0@ == value@,
    {
        AdjacentFarms(value)
    }
}

/// Total number of farms of a population.
#[derive(Debug, Clone, Copy, PartialEq, Eq, Hash, Structural)]
pub struct TotalFarms(pub usize);

impl TotalFarms {
    pub fn new_single_population(value: usize) -> (r: TotalFarms)
        ensures
            r.0 == value,
    {
        TotalFarms(value)
    }
}

/// One farm of the population data: identity, herd size and adjacency.
#[derive(Debug, Clone, PartialEq, Eq, Hash)]
pub struct FarmBundle {
    pub population: EmbeddedPopulation,
    pub farm_id: FarmId,
    pub herd_size: HerdSize,
    pub adjacent_farms: AdjacentFarms,
}

impl FarmBundle {
    pub fn new(
        population: EmbeddedPopulation,
        farm_id: FarmId,
        herd_size: HerdSize,
        adjacent_farms: AdjacentFarms,
    ) -> (r: FarmBundle)
        ensures
            r.population == population,
            r.farm_id == farm_id,
            r.herd_size == herd_size,
            r.adjacent_farms.0@ == adjacent_farms.0@,
    {
        FarmBundle { population, farm_id, herd_size, adjacent_farms }
    }
}

/// One cattle farm of the population data.
#[derive(Debug, Clone, PartialEq, Eq, Hash)]
pub struct CattleFarmBundle {
    pub cattle_farm: Cattle,
    pub farm_id: FarmId,
    pub herd_size: HerdSize,
    pub adjacent_farms: AdjacentFarms,
}

impl CattleFarmBundle {
    /// The same farm, as a farm of the cattle population.
    pub fn into_farm_bundle(self) -> (r: FarmBundle)
        ensures
            r.population == EmbeddedPopulation::Cattle(Cattle),
            r.farm_id == self.farm_id,
            r.herd_size == self.herd_size,
            r.adjacent_farms.0@ == self.adjacent_farms.0@,
    {
        FarmBundle {
            population: EmbeddedPopulation::Cattle(self.cattle_farm),
            farm_id: self.farm_id,
            herd_size: self.herd_size,
            adjacent_farms: self.adjacent_farms,
        }
    }
}

/// Why two population listings cannot be combined.
#[derive(Debug, Clone, Copy, PartialEq, Eq, Structural)]
pub enum PopulationListingError {
    /// The listings hold different numbers of farms.
    LengthMismatch,
    /// At this position the two listings name different farms.
    FarmIdMismatch(usize),
}

/// Combine the herd-size listing and the adjacency listing of a cattle
/// population, which list the same farms in the same order, into farms.
pub fn combine_population_records(
    records: Vec<(FarmId, HerdSize)>,
    adjacency: Vec<(FarmId, AdjacentFarms)>,
) -> (r: Result<Vec<CattleFarmBundle>, PopulationListingError>)
    ensures
        records@.len() != adjacency@.len() <==> r == Err::<
            Vec<CattleFarmBundle>,
            PopulationListingError,
        >(PopulationListingError::LengthMismatch),
        match r {
            Ok(farms) => {
                &&& farms@.len() == records@.len()
                &&& records@.len() == adjacency@.len()
                &&& forall|i: int| 0 <= i < records@.len() ==> #[trigger] records@[i].0 == adjacency@[i].0
                &&& forall|i: int|
                    0 <= i < records@.len() ==> {
                        &&& (#[trigger] farms@[i]).farm_id == records@[i].0
                        &&& farms@[i].herd_size == records@[i].1
                        &&& farms@[i].adjacent_farms.0@ == adjacency@[i].1.0@
                    }
            },
            Err(PopulationListingError::FarmIdMismatch(k)) => {
                &&& k < records@.len()
                &&& k < adjacency@.len()
                &&& records@[k as int].0 != adjacency@[k as int].0
                &&& forall|j: int| 0 <= j < k ==> #[trigger] records@[j].0 == adjacency@[j].0
            },
            Err(PopulationListingError::LengthMismatch) => true,
        },
        records@.len() == adjacency@.len() && (forall|i: int|
            0 <= i < records@.len() ==> #[trigger] records@[i].0 == adjacency@[i].0) ==> r.is_ok(),
{
    let n = records.len();
    if n != adjacency.len() {
        return Err(PopulationListingError::LengthMismatch);
    }
    let mut k: usize = 0;
    while k < n
        invariant
            n == records@.len(),
            n == adjacency@.len(),
            k <= n,
            forall|j: int| 0 <= j < k ==> #[trigger] records@[j].0 == adjacency@[j].0,
        decreases n - k,
    {
        if records[k].0 != adjacency[k].0 {
            return Err(PopulationListingError::FarmIdMismatch(k));
        }
        k = k + 1;
    }
    let ghost all = adjacency@;
    let mut pending = adjacency;
    let mut stack: Vec<(FarmId, AdjacentFarms)> = Vec::new();
    while pending.len() > 0
        invariant
            all == adjacency@,
            n == all.len(),
            pending@ == all.subrange(0, pending@.len() as int),
            stack@.len() + pending@.len() == n,
            forall|j: int| 0 <= j < stack@.len() ==> #[trigger] stack@[j] == all[n - 1 - j],
        decreases pending@.len(),
    {
        let entry = pending.pop().unwrap();
        stack.push(entry);
    }
    let mut farms: Vec<CattleFarmBundle> = Vec::new();
    let mut i: usize = 0;
    while i < n
        invariant
            all == adjacency@,
            n == all.len(),
            n == records@.len(),
            i <= n,
            stack@.len() == n - i,
            forall|j: int| 0 <= j < stack@.len() ==> #[trigger] stack@[j] == all[n - 1 - j],
            farms@.len() == i,
            forall|j: int|
                0 <= j < i ==> {
                    &&& (#[trigger] farms@[j]).farm_id == records@[j].0
                    &&& farms@[j].herd_size == records@[j].1
                    &&& farms@[j].adjacent_farms.0@ == all[j].1.0@
                },
        decreases n - i,
    {
        let (_, adjacent_farms) = stack.pop().unwrap();
        let (farm_id, herd_size) = records[i];
        farms.push(CattleFarmBundle { cattle_farm: Cattle, farm_id, herd_size, adjacent_farms });
        i = i + 1;
    }
    Ok(farms)
}

} // verus!
