//! The farm store: topology and disease state of every farm, held as parallel
//! vectors indexed by a farm's handle (its position), with a map from each
//! farm's id to its handle.

use std::collections::HashMap;
use vstd::prelude::*;

use crate::populations::{AdjacentFarms, EmbeddedPopulation, FarmBundle, FarmId, HerdSize};
use crate::sir_spread_model::{DiseaseCompartments, Infected, Recovered, Susceptible};

verus! {

broadcast use vstd::std_specs::hash::group_hash_axioms;

/// Largest herd a farm may hold; keeps every rate product within 128 bits.
pub const MAX_HERD_SIZE: usize = 4_294_967_295;

/// Map from a farm's id to its handle in the store; built once.
#[derive(Debug)]
pub struct FarmIdEntityMap(pub HashMap<usize, usize>);

/// Why population data could not be turned into a farm store.
#[derive(Debug, Clone, Copy, PartialEq, Eq, Structural)]
pub enum PopulationError {
    /// Two farms share this id.
    DuplicateFarmId(FarmId),
    /// This farm's herd size is zero or above `MAX_HERD_SIZE`.
    InvalidHerdSize(FarmId),
}

/// All farms of a scenario.
#[derive(Debug)]
pub struct FarmStore {
    pub populations: Vec<EmbeddedPopulation>,
    pub farm_ids: Vec<FarmId>,
    pub herd_sizes: Vec<HerdSize>,
    pub adjacency: Vec<AdjacentFarms>,
    pub compartments: Vec<DiseaseCompartments>,
    pub index: FarmIdEntityMap,
}

/// Compartments fit their herd: susceptible and infected together never
/// exceed the herd size, which lies in `1..=MAX_HERD_SIZE`.
pub open spec fn fits_herd(c: DiseaseCompartments, herd: HerdSize) -> bool {
    &&& 1 <= herd.0 <= MAX_HERD_SIZE
    &&& c.susceptible.0 + c.infected.0 <= herd.0
}

/// Population data that a store can hold: distinct farm ids, and herd sizes
/// in `1..=MAX_HERD_SIZE`.
pub open spec fn valid_population(bundles: Seq<FarmBundle>) -> bool {
    &&& forall|i: int, j: int|
        #![trigger bundles[i], bundles[j]]
        0 <= i < j < bundles.len() ==> bundles[i].farm_id != bundles[j].farm_id
    &&& forall|i: int|
        0 <= i < bundles.len() ==> 1 <= (#[trigger] bundles[i]).herd_size.0 <= MAX_HERD_SIZE
}

impl FarmStore {
    /// Number of farms.
    pub open spec fn len(&self) -> nat {
        self.farm_ids@.len()
    }

    /// The id map sends each farm's id to that farm's handle, and nothing else.
    pub open spec fn index_wf(&self) -> bool {
        &&& forall|k: usize| #[trigger]
            self.index.0@.contains_key(k) ==> {
                &&& self.index.0@[k] < self.len()
                &&& self.farm_ids@[self.index.0@[k] as int].0 == k
            }
        &&& forall|i: int|
            0 <= i < self.len() ==> self.index.0@.contains_key(#[trigger] self.farm_ids@[i].0)
                && self.index.0@[self.farm_ids@[i].0] == i
    }

    /// Farm ids are unique in a well-formed store.
    pub proof fn lemma_ids_unique(&self, a: int, b: int)
        requires
            self.wf(),
            0 <= a < self.len(),
            0 <= b < self.len(),
            self.farm_ids@[a] == self.farm_ids@[b],
        ensures
            a == b,
    {
        assert(self.index.0@.contains_key(self.farm_ids@[a].0));
        assert(self.index.0@.contains_key(self.farm_ids@[b].0));
    }

    /// Well-formed: parallel vectors of one length, compartments that fit
    /// their herds, and a faithful id map.
    pub open spec fn wf(&self) -> bool {
        &&& self.populations@.len() == self.len()
        &&& self.herd_sizes@.len() == self.len()
        &&& self.adjacency@.len() == self.len()
        &&& self.compartments@.len() == self.len()
        &&& forall|i: int|
            0 <= i < self.len() ==> fits_herd(
                #[trigger] self.compartments@[i],
                self.herd_sizes@[i],
            )
        &&& self.index_wf()
    }

    /// The topology (everything but the compartments) of `other` is that of `self`.
    pub open spec fn same_topology(&self, other: &FarmStore) -> bool {
        &&& self.populations@ == other.populations@
        &&& self.farm_ids@ == other.farm_ids@
        &&& self.herd_sizes@ == other.herd_sizes@
        &&& self.adjacency@ == other.adjacency@
        &&& self.index.0@ == other.index.0@
    }

    /// Farm `i` of the store is the farm of `bundle`, with its whole herd susceptible.
    pub open spec fn holds_bundle(&self, i: int, bundle: FarmBundle) -> bool {
        &&& self.farm_ids@[i] == bundle.farm_id
        &&& self.herd_sizes@[i] == bundle.herd_size
        &&& self.populations@[i] == bundle.population
        &&& self.adjacency@[i].0@ == bundle.adjacent_farms.0@
        &&& self.compartments@[i] == DiseaseCompartments::initial(bundle.herd_size.0)
        &&& 1 <= bundle.herd_size.0 <= MAX_HERD_SIZE
    }

    /// Build the store from population data, in the order given. Every farm
    /// starts with its whole herd susceptible.
    pub fn from_bundles(bundles: Vec<FarmBundle>) -> (r: Result<FarmStore, PopulationError>)
        ensures
            match r {
                Ok(store) => {
                    &&& store.wf()
                    &&& store.len() == bundles@.len()
                    &&& forall|i: int|
                        0 <= i < bundles@.len() ==> store.holds_bundle(i, #[trigger] bundles@[i])
                },
                Err(PopulationError::DuplicateFarmId(id)) => exists|i: int, j: int|
                    #![trigger bundles@[i], bundles@[j]]
                    0 <= i < j < bundles@.len() && bundles@[i].farm_id == id
                        && bundles@[j].farm_id == id,
                Err(PopulationError::InvalidHerdSize(id)) => exists|i: int|
                    0 <= i < bundles@.len() && #[trigger] bundles@[i].farm_id == id && (
                    bundles@[i].herd_size.0 == 0 || bundles@[i].herd_size.0 > MAX_HERD_SIZE),
            },
            valid_population(bundles@) ==> r.is_ok(),
    {
        let mut store = FarmStore {
            populations: Vec::new(),
            farm_ids: Vec::new(),
            herd_sizes: Vec::new(),
            adjacency: Vec::new(),
            compartments: Vec::new(),
            index: FarmIdEntityMap(HashMap::new()),
        };
        let ghost all = bundles@;
        let n = bundles.len();
        let mut pending = bundles;
        let mut stack: Vec<FarmBundle> = Vec::new();
        while pending.len() > 0
            invariant
                all == bundles@,
                n == all.len(),
                pending@ == all.subrange(0, pending@.len() as int),
                stack@.len() + pending@.len() == n,
                forall|k: int|
                    0 <= k < stack@.len() ==> #[trigger] stack@[k] == all[n - 1 - k],
            decreases pending@.len(),
        {
            let b = pending.pop().unwrap();
            stack.push(b);
        }
        let mut i: usize = 0;
        while i < n
            invariant
                all == bundles@,
                n == all.len(),
                stack@.len() == n - i,
                forall|k: int|
                    0 <= k < stack@.len() ==> #[trigger] stack@[k] == all[n - 1 - k],
                i <= n,
                store.wf(),
                store.len() == i,
                forall|a: int, b: int|
                    #![trigger all[a], all[b]]
                    0 <= a < b < i ==> all[a].farm_id != all[b].farm_id,
                forall|a: int| 0 <= a < i ==> store.holds_bundle(a, #[trigger] all[a]),
            decreases n - i,
        {
            let bundle = stack.pop().unwrap();
            proof {
                assert(bundle == all[i as int]);
            }
            let ghost prev = store;
            let id = bundle.farm_id.0;
            if store.index.0.contains_key(&id) {
                let prior = *store.index.0.get(&id).unwrap();
                proof {
                    assert(all[prior as int].farm_id == bundle.farm_id);
                    assert(prior < i);
                    assert(all[prior as int] == all[prior as int]);
                    assert(all[i as int] == bundle);
                }
                return Err(PopulationError::DuplicateFarmId(bundle.farm_id));
            }
            let herd = bundle.herd_size.0;
            if herd == 0 || herd > MAX_HERD_SIZE {
                return Err(PopulationError::InvalidHerdSize(bundle.farm_id));
            }
            proof {
                assert forall|a: int| 0 <= a < i implies #[trigger] all[a].farm_id != all[i as int].farm_id by {
                    assert(store.index.0@.contains_key(store.farm_ids@[a].0));
                }
            }
            store.index.0.insert(id, i);
            store.populations.push(bundle.population);
            store.farm_ids.push(bundle.farm_id);
            store.herd_sizes.push(bundle.herd_size);
            store.adjacency.push(bundle.adjacent_farms);
            store.compartments.push(DiseaseCompartments::new(herd));
            proof {
                assert(store.farm_ids@[i as int] == all[i as int].farm_id);
                assert(store.herd_sizes@[i as int] == all[i as int].herd_size);
                assert(store.populations@[i as int] == all[i as int].population);
                assert(store.adjacency@[i as int].0@ == all[i as int].adjacent_farms.0@);
                assert(fits_herd(store.compartments@[i as int], store.herd_sizes@[i as int]));
                assert forall|a: int| 0 <= a < i + 1 implies store.holds_bundle(a, #[trigger] all[a]) by {
                    if a < i {
                        assert(prev.holds_bundle(a, all[a]));
                        assert(store.farm_ids@[a] == prev.farm_ids@[a]);
                        assert(store.herd_sizes@[a] == prev.herd_sizes@[a]);
                        assert(store.populations@[a] == prev.populations@[a]);
                        assert(store.adjacency@[a] == prev.adjacency@[a]);
                        assert(store.compartments@[a] == prev.compartments@[a]);
                    }
                }
            }
            i = i + 1;
        }
        Ok(store)
    }

    /// Number of farms in the store.
    pub fn num_farms(&self) -> (r: usize)
        ensures
            r == self.len(),
    {
        self.farm_ids.len()
    }

    /// Handle of the farm with id `farm_id`, if there is one.
    pub fn handle_of(&self, farm_id: FarmId) -> (r: Option<usize>)
        requires
            self.wf(),
        ensures
            match r {
                Some(i) => i < self.len() && self.farm_ids@[i as int] == farm_id,
                None => forall|i: int|
                    0 <= i < self.len() ==> #[trigger] self.farm_ids@[i] != farm_id,
            },
    {
        match self.index.0.get(&farm_id.0) {
            Some(i) => Some(*i),
            None => {
                proof {
                    assert forall|i: int| 0 <= i < self.len() implies #[trigger] self.farm_ids@[i]
                        != farm_id by {
                        assert(self.index.0@.contains_key(self.farm_ids@[i].0));
                    }
                }
                None
            },
        }
    }

    /// Compartments of the farm with handle `i`.
    pub fn compartments_of(&self, i: usize) -> (r: DiseaseCompartments)
        requires
            i < self.compartments@.len(),
        ensures
            r == self.compartments@[i as int],
    {
        self.compartments[i]
    }

    /// `(farm id, susceptible, infected, recovered)` of every farm, in store order.
    pub fn snapshot(&self) -> (r: Vec<(FarmId, Susceptible, Infected, Recovered)>)
        requires
            self.wf(),
        ensures
            r@.len() == self.len(),
            forall|i: int|
                0 <= i < self.len() ==> #[trigger] r@[i] == (
                    self.farm_ids@[i],
                    self.compartments@[i].susceptible,
                    self.compartments@[i].infected,
                    self.compartments@[i].recovered,
                ),
    {
        let mut out: Vec<(FarmId, Susceptible, Infected, Recovered)> = Vec::new();
        let mut i: usize = 0;
        while i < self.farm_ids.len()
            invariant
                self.wf(),
                i <= self.len(),
                out@.len() == i,
                forall|a: int|
                    0 <= a < i ==> #[trigger] out@[a] == (
                        self.farm_ids@[a],
                        self.compartments@[a].susceptible,
                        self.compartments@[a].infected,
                        self.compartments@[a].recovered,
                    ),
            decreases self.len() - i,
        {
            let c = self.compartments[i];
            out.push((self.farm_ids[i], c.susceptible, c.infected, c.recovered));
            i = i + 1;
        }
        out
    }
}

} // verus!
