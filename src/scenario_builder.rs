//! Scenarios: the configuration and parameters of a run, validated once
//! before the first day, and the daily step that drives every process in a
//! fixed order.

use rand::rngs::StdRng;
use vstd::prelude::*;

use crate::between_herd_spread_model::{
    BetweenHerdSpreadModel,
    ContactRate,
    InfectionEvents,
    count_target,
    day_events,
    known_farm,
    lemma_topology_sound_adjacency,
    topology_sound,
    update_between_herd_spread_model,
};
use crate::parameters::PARTS_PER_UNIT;
use crate::errors::SimulationError;
use crate::farm_store::{FarmStore, PopulationError};
use crate::populations::{EmbeddedPopulation, FarmBundle, FarmId};
use crate::random::seeded_rng;
use crate::regulator_active_surveillance::{
    ActiveSurveillance,
    DetectionRate,
    active_outcome,
    update_active_surveillance,
};
use crate::regulator_passive_surveillance::{
    PassiveRegulator,
    PrevalenceReport,
    setup_passive_surveillance,
    update_passive_surveillance,
};
use crate::scenario_time::ScenarioTime;
use crate::compartment_counts::{
    count_infected,
    lemma_count_infected_positive,
    lemma_count_infected_step,
};
use crate::sir_spread_model::{
    DiseaseCompartments,
    DiseaseParameters,
    can_overdraw,
    infections_fit,
    lemma_unit_rate_fits,
    seeded,
    within_herd_outcome,
    seed_infected_everywhere,
    seed_infection_random,
    update_disease_compartments,
};

verus! {

/// Seed of the random number generator unless another is set.
pub const DEFAULT_SEED: u64 = 20210426;

/// When a run stops.
#[derive(Debug, Clone, Copy, PartialEq, Eq, Structural)]
pub struct ScenarioConfiguration {
    /// The run stops on this day at the latest.
    pub max_timesteps: u64,
    /// The run does not stop before this day.
    pub min_timesteps: u64,
    /// Number of repetitions of the run.
    pub max_repetitions: u64,
}

/// Whether a run stops after the current day: once the minimum day is
/// reached, when no farm is infected any more or the maximum day is reached.
pub fn terminate_if_outbreak_is_over(
    scenario_configuration: &ScenarioConfiguration,
    store: &FarmStore,
    tick: &ScenarioTime,
) -> (r: bool)
    requires
        store.wf(),
        tick.readable(),
    ensures
        r == (scenario_configuration.min_timesteps <= tick.now() && (count_infected(
            store.compartments@,
        ) == 0 || scenario_configuration.max_timesteps == tick.now())),
        r == (scenario_configuration.min_timesteps <= tick.now() && ((forall|i: int|
            0 <= i < store.len() ==> (#[trigger] store.compartments@[i]).infected.0 == 0)
            || scenario_configuration.max_timesteps == tick.now())),
{
    let n = store.compartments.len();
    let mut active: usize = 0;
    let mut k: usize = 0;
    while k < n
        invariant
            store.wf(),
            n == store.len(),
            k <= n,
            active == count_infected(store.compartments@.subrange(0, k as int)),
            active <= k,
        decreases n - k,
    {
        proof {
            lemma_count_infected_step(store.compartments@, k as int);
        }
        if store.compartments[k].infected.0 > 0 {
            active = active + 1;
        }
        k = k + 1;
    }
    proof {
        assert(store.compartments@.subrange(0, n as int) =~= store.compartments@);
        lemma_count_infected_positive(store.compartments@);
    }
    let now = tick.current_time();
    scenario_configuration.min_timesteps <= now && (active == 0
        || scenario_configuration.max_timesteps == now)
}

/// A parameter of the scenario's processes.
#[derive(Debug, Clone, Copy, PartialEq, Eq, Structural)]
pub enum ScenarioParameter {
    Disease(DiseaseParameters),
    Contact(ContactRate),
    Active(ActiveSurveillance),
    PassiveDetection(DetectionRate),
}

/// Why a scenario cannot be built.
#[derive(Debug, Clone, Copy, PartialEq, Eq, Structural)]
pub enum ScenarioError {
    MissingDiseaseParameters,
    MissingContactRate,
    MissingActiveSurveillance,
    MissingPassiveDetectionRate,
    /// A probability parameter lies outside `[0, 1]`.
    InvalidProbability,
    /// A parameter was given for a population that has no farm.
    UnknownPopulation,
    /// The population data cannot be stored.
    Population(PopulationError),
}

/// Collects the population and parameters of a scenario.
#[derive(Debug)]
pub struct ScenarioBuilder {
    /// Random number generator seed.
    pub seed: u64,
    pub farms: Vec<FarmBundle>,
    pub disease_parameters: Option<DiseaseParameters>,
    pub contact_rate: Option<ContactRate>,
    pub active_surveillance: Option<ActiveSurveillance>,
    pub passive_detection_rate: Option<DetectionRate>,
}

/// Some farm of `farms` belongs to `population`.
pub open spec fn has_population(farms: Seq<FarmBundle>, population: EmbeddedPopulation) -> bool {
    exists|i: int| 0 <= i < farms.len() && (#[trigger] farms[i]).population == population
}

/// The probability parameters lie in `[0, 1]`.
pub open spec fn parameters_valid(
    contact: ContactRate,
    active: ActiveSurveillance,
    passive: DetectionRate,
) -> bool {
    contact.0.valid() && active.valid() && passive.0.valid()
}

impl ScenarioBuilder {
    /// An empty scenario with the default seed.
    pub fn new() -> (r: ScenarioBuilder)
        ensures
            r.seed == DEFAULT_SEED,
            r.farms@.len() == 0,
            r.disease_parameters.is_none(),
            r.contact_rate.is_none(),
            r.active_surveillance.is_none(),
            r.passive_detection_rate.is_none(),
    {
        ScenarioBuilder {
            seed: DEFAULT_SEED,
            farms: Vec::new(),
            disease_parameters: None,
            contact_rate: None,
            active_surveillance: None,
            passive_detection_rate: None,
        }
    }

    /// The random number generator seed.
    pub fn seed(&self) -> (r: u64)
        ensures
            r == self.seed,
    {
        self.seed
    }

    /// Set the scenario builder's `seed`.
    pub fn set_seed(self, seed: u64) -> (r: ScenarioBuilder)
        ensures
            r.seed == seed,
            r.farms@ == self.farms@,
            r.disease_parameters == self.disease_parameters,
            r.contact_rate == self.contact_rate,
            r.active_surveillance == self.active_surveillance,
            r.passive_detection_rate == self.passive_detection_rate,
    {
        let mut b = self;
        b.seed = seed;
        b
    }

    /// Add farms of a population, in order.
    pub fn add_population(&mut self, population: EmbeddedPopulation, individuals: Vec<FarmBundle>)
        ensures
            final(self).seed == old(self).seed,
            final(self).disease_parameters == old(self).disease_parameters,
            final(self).contact_rate == old(self).contact_rate,
            final(self).active_surveillance == old(self).active_surveillance,
            final(self).passive_detection_rate == old(self).passive_detection_rate,
            final(self).farms@.len() == old(self).farms@.len() + individuals@.len(),
            forall|i: int|
                0 <= i < old(self).farms@.len() ==> #[trigger] final(self).farms@[i] == old(
                    self,
                ).farms@[i],
            forall|i: int|
                0 <= i < individuals@.len() ==> {
                    let f = #[trigger] final(self).farms@[old(self).farms@.len() + i];
                    &&& f.population == population
                    &&& f.farm_id == individuals@[i].farm_id
                    &&& f.herd_size == individuals@[i].herd_size
                    &&& f.adjacent_farms.0@ == individuals@[i].adjacent_farms.0@
                },
    {
        let ghost start = self.farms@;
        let ghost all = individuals@;
        let n = individuals.len();
        let mut pending = individuals;
        let mut stack: Vec<FarmBundle> = Vec::new();
        while pending.len() > 0
            invariant
                n == all.len(),
                pending@ == all.subrange(0, pending@.len() as int),
                stack@.len() + pending@.len() == n,
                forall|k: int| 0 <= k < stack@.len() ==> #[trigger] stack@[k] == all[n - 1 - k],
            decreases pending@.len(),
        {
            let b = pending.pop().unwrap();
            stack.push(b);
        }
        let mut i: usize = 0;
        while i < n
            invariant
                n == all.len(),
                stack@.len() == n - i,
                forall|k: int| 0 <= k < stack@.len() ==> #[trigger] stack@[k] == all[n - 1 - k],
                i <= n,
                self.seed == old(self).seed,
                self.disease_parameters == old(self).disease_parameters,
                self.contact_rate == old(self).contact_rate,
                self.active_surveillance == old(self).active_surveillance,
                self.passive_detection_rate == old(self).passive_detection_rate,
                start == old(self).farms@,
                self.farms@.len() == start.len() + i,
                forall|k: int| 0 <= k < start.len() ==> #[trigger] self.farms@[k] == start[k],
                forall|k: int|
                    0 <= k < i ==> {
                        let f = #[trigger] self.farms@[start.len() + k];
                        &&& f.population == population
                        &&& f.farm_id == all[k].farm_id
                        &&& f.herd_size == all[k].herd_size
                        &&& f.adjacent_farms.0@ == all[k].adjacent_farms.0@
                    },
            decreases n - i,
        {
            let b = stack.pop().unwrap();
            proof {
                assert(b == all[i as int]);
            }
            let f = FarmBundle {
                population,
                farm_id: b.farm_id,
                herd_size: b.herd_size,
                adjacent_farms: b.adjacent_farms,
            };
            self.farms.push(f);
            i = i + 1;
        }
    }

    /// Set a parameter of the processes. It must name a population that some
    /// added farm belongs to; the parameter then holds for every farm.
    pub fn add_parameter(
        &mut self,
        initial_parameter: ScenarioParameter,
        target_population: EmbeddedPopulation,
    ) -> (r: Result<(), ScenarioError>)
        ensures
            final(self).seed == old(self).seed,
            final(self).farms@ == old(self).farms@,
            r.is_ok() <==> has_population(old(self).farms@, target_population),
            r.is_err() ==> r == Err::<(), ScenarioError>(ScenarioError::UnknownPopulation) && {
                &&& final(self).disease_parameters == old(self).disease_parameters
                &&& final(self).contact_rate == old(self).contact_rate
                &&& final(self).active_surveillance == old(self).active_surveillance
                &&& final(self).passive_detection_rate == old(self).passive_detection_rate
            },
            r.is_ok() ==> match initial_parameter {
                ScenarioParameter::Disease(d) => {
                    &&& final(self).disease_parameters == Some(d)
                    &&& final(self).contact_rate == old(self).contact_rate
                    &&& final(self).active_surveillance == old(self).active_surveillance
                    &&& final(self).passive_detection_rate == old(self).passive_detection_rate
                },
                ScenarioParameter::Contact(c) => {
                    &&& final(self).disease_parameters == old(self).disease_parameters
                    &&& final(self).contact_rate == Some(c)
                    &&& final(self).active_surveillance == old(self).active_surveillance
                    &&& final(self).passive_detection_rate == old(self).passive_detection_rate
                },
                ScenarioParameter::Active(a) => {
                    &&& final(self).disease_parameters == old(self).disease_parameters
                    &&& final(self).contact_rate == old(self).contact_rate
                    &&& final(self).active_surveillance == Some(a)
                    &&& final(self).passive_detection_rate == old(self).passive_detection_rate
                },
                ScenarioParameter::PassiveDetection(p) => {
                    &&& final(self).disease_parameters == old(self).disease_parameters
                    &&& final(self).contact_rate == old(self).contact_rate
                    &&& final(self).active_surveillance == old(self).active_surveillance
                    &&& final(self).passive_detection_rate == Some(p)
                },
            },
    {
        let mut found = false;
        let mut k: usize = 0;
        while k < self.farms.len()
            invariant
                k <= self.farms@.len(),
                found <==> exists|i: int|
                    0 <= i < k && (#[trigger] self.farms@[i]).population == target_population,
            decreases self.farms@.len() - k,
        {
            if self.farms[k].population == target_population {
                found = true;
            }
            k = k + 1;
        }
        if !found {
            return Err(ScenarioError::UnknownPopulation);
        }
        match initial_parameter {
            ScenarioParameter::Disease(d) => {
                self.disease_parameters = Some(d);
            },
            ScenarioParameter::Contact(c) => {
                self.contact_rate = Some(c);
            },
            ScenarioParameter::Active(a) => {
                self.active_surveillance = Some(a);
            },
            ScenarioParameter::PassiveDetection(p) => {
                self.passive_detection_rate = Some(p);
            },
        }
        Ok(())
    }

    /// Validate the configuration and build the scenario, with its clock on
    /// day 1 and its generator seeded.
    pub fn build(self) -> (r: Result<Scenario, ScenarioError>)
        ensures
            match r {
                Ok(s) => {
                    &&& s.wf()
                    &&& s.time.now() == 1
                    &&& s.time.end_spec().is_none()
                    &&& self.disease_parameters == Some(s.disease_parameters)
                    &&& self.contact_rate == Some(s.between_herd.contact_rate)
                    &&& s.between_herd.current_batch_id == 0
                    &&& self.active_surveillance == Some(s.active_surveillance)
                    &&& self.passive_detection_rate == Some(s.passive.detection_rate)
                    &&& s.passive.total_farms.is_none()
                    &&& s.store.len() == self.farms@.len()
                    &&& forall|i: int|
                        0 <= i < self.farms@.len() ==> s.store.holds_bundle(
                            i,
                            #[trigger] self.farms@[i],
                        )
                },
                Err(ScenarioError::MissingDiseaseParameters) => self.disease_parameters.is_none(),
                Err(ScenarioError::MissingContactRate) => self.contact_rate.is_none(),
                Err(ScenarioError::MissingActiveSurveillance) => self.active_surveillance.is_none(),
                Err(ScenarioError::MissingPassiveDetectionRate) => self.passive_detection_rate.is_none(),
                Err(ScenarioError::InvalidProbability) => !parameters_valid(
                    self.contact_rate.unwrap(),
                    self.active_surveillance.unwrap(),
                    self.passive_detection_rate.unwrap(),
                ),
                Err(ScenarioError::Population(_)) => !crate::farm_store::valid_population(self.farms@),
                Err(ScenarioError::UnknownPopulation) => false,
            },
            self.disease_parameters.is_some() && self.contact_rate.is_some()
                && self.active_surveillance.is_some() && self.passive_detection_rate.is_some()
                && parameters_valid(
                self.contact_rate.unwrap(),
                self.active_surveillance.unwrap(),
                self.passive_detection_rate.unwrap(),
            ) && crate::farm_store::valid_population(self.farms@) ==> r.is_ok(),
    {
        let ScenarioBuilder {
            seed,
            farms,
            disease_parameters,
            contact_rate,
            active_surveillance,
            passive_detection_rate,
        } = self;
        let disease_parameters = match disease_parameters {
            Some(d) => d,
            None => {
                return Err(ScenarioError::MissingDiseaseParameters);
            },
        };
        let contact_rate = match contact_rate {
            Some(c) => c,
            None => {
                return Err(ScenarioError::MissingContactRate);
            },
        };
        let active_surveillance = match active_surveillance {
            Some(a) => a,
            None => {
                return Err(ScenarioError::MissingActiveSurveillance);
            },
        };
        let passive_detection_rate = match passive_detection_rate {
            Some(p) => p,
            None => {
                return Err(ScenarioError::MissingPassiveDetectionRate);
            },
        };
        if contact_rate.0.0 > PARTS_PER_UNIT
            || active_surveillance.detection_rate.0.0 > PARTS_PER_UNIT
            || active_surveillance.remaining_proportion.0.0 > PARTS_PER_UNIT
            || passive_detection_rate.0.0 > PARTS_PER_UNIT {
            return Err(ScenarioError::InvalidProbability);
        }
        let store = match FarmStore::from_bundles(farms) {
            Ok(store) => store,
            Err(e) => {
                return Err(ScenarioError::Population(e));
            },
        };
        Ok(
            Scenario {
                time: ScenarioTime::new(1, None),
                store,
                rng: seeded_rng(seed),
                disease_parameters,
                between_herd: BetweenHerdSpreadModel { current_batch_id: 0, contact_rate },
                active_surveillance,
                passive: setup_passive_surveillance(passive_detection_rate),
            },
        )
    }
}

/// What one simulated day puts out.
#[derive(Debug)]
pub struct DayOutcome {
    /// The day's between-herd infection events, if any.
    pub events: Option<InfectionEvents>,
    /// The passive-surveillance reading, on days it runs.
    pub prevalence: Option<PrevalenceReport>,
}

/// A running scenario: clock, farms, generator and processes.
#[derive(Debug)]
pub struct Scenario {
    pub time: ScenarioTime,
    pub store: FarmStore,
    pub rng: StdRng,
    pub disease_parameters: DiseaseParameters,
    pub between_herd: BetweenHerdSpreadModel,
    pub active_surveillance: ActiveSurveillance,
    pub passive: PassiveRegulator,
}

impl Scenario {
    /// Well-formed: a valid store, a readable clock and valid parameters.
    pub open spec fn wf(&self) -> bool {
        &&& self.store.wf()
        &&& self.time.readable()
        &&& self.active_surveillance.valid()
        &&& self.between_herd.contact_rate.0.valid()
        &&& self.passive.detection_rate.0.valid()
        &&& match self.passive.total_farms {
            Some(t) => t.0 == self.store.len(),
            None => true,
        }
    }

    /// Infect one susceptible animal of one farm chosen at random.
    pub fn seed_infection_random(&mut self) -> (r: Result<(), SimulationError>)
        requires
            old(self).wf(),
        ensures
            final(self).wf(),
            final(self).store.same_topology(&old(self).store),
            final(self).time == old(self).time,
            final(self).between_herd == old(self).between_herd,
            final(self).passive == old(self).passive,
            old(self).store.len() == 0 <==> r == Err::<(), SimulationError>(SimulationError::NoFarms),
            old(self).store.len() > 0 && (forall|i: int|
                0 <= i < old(self).store.len()
                    ==> (#[trigger] old(self).store.compartments@[i]).susceptible.0 >= 1)
                ==> r.is_ok(),
            r.is_ok() ==> exists|i: int|
                0 <= i < old(self).store.len()
                    && old(self).store.compartments@[i].susceptible.0 >= 1
                    && final(self).store.compartments@ == old(self).store.compartments@.update(
                    i,
                    seeded(#[trigger] old(self).store.compartments@[i]),
                ),
            match r {
                Err(SimulationError::NoSusceptible(id)) => exists|i: int|
                    0 <= i < old(self).store.len() && #[trigger] old(self).store.farm_ids@[i] == id
                        && old(self).store.compartments@[i].susceptible.0 == 0,
                Err(SimulationError::NoFarms) => true,
                Err(_) => false,
                Ok(_) => true,
            },
            r.is_err() ==> final(self).store.compartments@ == old(self).store.compartments@,
    {
        seed_infection_random(&mut self.store, &mut self.rng)
    }

    /// Infect one susceptible animal of every farm.
    pub fn seed_infected_everywhere(&mut self) -> (r: Result<(), SimulationError>)
        requires
            old(self).wf(),
        ensures
            final(self).wf(),
            final(self).store.same_topology(&old(self).store),
            final(self).time == old(self).time,
            final(self).between_herd == old(self).between_herd,
            final(self).passive == old(self).passive,
            old(self).store.len() == 0 <==> r == Err::<(), SimulationError>(SimulationError::NoFarms),
            r.is_ok() <==> (old(self).store.len() > 0 && forall|i: int|
                0 <= i < old(self).store.len()
                    ==> (#[trigger] old(self).store.compartments@[i]).susceptible.0 >= 1),
            r.is_ok() ==> forall|i: int|
                0 <= i < old(self).store.len() ==> #[trigger] final(self).store.compartments@[i]
                    == seeded(old(self).store.compartments@[i]),
            match r {
                Err(SimulationError::NoSusceptible(id)) => exists|i: int|
                    0 <= i < old(self).store.len() && #[trigger] old(self).store.farm_ids@[i] == id
                        && old(self).store.compartments@[i].susceptible.0 == 0,
                Err(SimulationError::NoFarms) => true,
                Err(_) => false,
                Ok(_) => true,
            },
            r.is_err() ==> final(self).store.compartments@ == old(self).store.compartments@,
    {
        seed_infected_everywhere(&mut self.store)
    }

    /// Simulate one day: advance the clock, then run within-herd dynamics,
    /// between-herd spread and active surveillance, and passive surveillance
    /// when `run_passive`; the generator is used in that order.
    ///
    /// Fails when the day or batch counter is at its limit, or when one of
    /// the three processes fails; what the processes did before is kept.
    pub fn run_day(&mut self, run_passive: bool) -> (r: Result<DayOutcome, SimulationError>)
        requires
            old(self).wf(),
        ensures
            final(self).wf(),
            final(self).store.same_topology(&old(self).store),
            final(self).disease_parameters == old(self).disease_parameters,
            final(self).active_surveillance == old(self).active_surveillance,
            final(self).between_herd.contact_rate == old(self).between_herd.contact_rate,
            r == Err::<DayOutcome, SimulationError>(SimulationError::CounterExhausted) <==> (
            old(self).time.now() == u64::MAX || old(self).between_herd.current_batch_id
                == usize::MAX),
            old(self).time.now() < u64::MAX && old(self).between_herd.current_batch_id
                < usize::MAX && old(self).disease_parameters.infection_rate.0 <= PARTS_PER_UNIT
                && topology_sound(&old(self).store) ==> r.is_ok(),
            match r {
                Ok(outcome) => {
                    &&& final(self).time.now() == old(self).time.now() + 1
                    &&& day_composition(
                        &old(self).store,
                        final(self).store.compartments@,
                        old(self).disease_parameters,
                        old(self).active_surveillance,
                        day_events(outcome.events),
                    )
                    &&& (match outcome.events {
                        Some(events) => {
                            &&& events.scenario_tick == final(self).time.now()
                            &&& events.batch_id == final(self).between_herd.current_batch_id
                            &&& events.batch_id == old(self).between_herd.current_batch_id + 1
                            &&& events.events_values@.len() > 0
                        },
                        None => final(self).between_herd.current_batch_id
                            == old(self).between_herd.current_batch_id,
                    })
                    &&& outcome.prevalence.is_some() == run_passive
                    &&& (match outcome.prevalence {
                        Some(p) => {
                            &&& p.consistent()
                            &&& p.total_farms == final(self).store.len()
                            &&& p.infected_farms == count_infected(final(self).store.compartments@)
                        },
                        None => true,
                    })
                },
                Err(SimulationError::CounterExhausted) => true,
                Err(SimulationError::InfectionsExceedSusceptible(id)) => exists|i: int|
                    0 <= i < old(self).store.len() && #[trigger] old(self).store.farm_ids@[i] == id
                        && can_overdraw(
                        old(self).store.compartments@[i],
                        old(self).store.herd_sizes@[i],
                        old(self).disease_parameters,
                    ),
                Err(SimulationError::EmptyAdjacency(id)) => exists|h: int|
                    0 <= h < old(self).store.len() && #[trigger] old(self).store.farm_ids@[h] == id
                        && old(self).store.adjacency@[h].0@.len() == 0,
                Err(SimulationError::UnknownFarm(id)) => {
                    &&& !known_farm(&old(self).store, id)
                    &&& exists|h: int|
                        0 <= h < old(self).store.len() && (#[trigger] old(
                            self,
                        ).store.adjacency@[h]).0@.contains(id)
                },
                Err(_) => false,
            },
    {
        if self.time.current_time() == u64::MAX || self.between_herd.current_batch_id == usize::MAX {
            return Err(SimulationError::CounterExhausted);
        }
        let ghost start = self.store;
        self.time.update_time(1);
        proof {
            if self.disease_parameters.infection_rate.0 <= PARTS_PER_UNIT {
                assert forall|i: int| 0 <= i < start.len() implies #[trigger] infections_fit(
                    start.compartments@[i],
                    start.herd_sizes@[i],
                    self.disease_parameters,
                ) by {
                    lemma_unit_rate_fits(
                        start.compartments@[i],
                        start.herd_sizes@[i],
                        self.disease_parameters,
                    );
                }
            }
        }
        let r1 = update_disease_compartments(&mut self.store, &self.disease_parameters, &mut self.rng);
        if let Err(e) = r1 {
            return Err(e);
        }
        let ghost after_within = self.store;
        proof {
            if topology_sound(&start) {
                lemma_topology_sound_adjacency(&start, &after_within);
            }
        }
        let events = match update_between_herd_spread_model(
            &mut self.between_herd,
            &mut self.store,
            &mut self.rng,
            &self.time,
        ) {
            Ok(events) => events,
            Err(e) => {
                return Err(e);
            },
        };
        let ghost after_between = self.store;
        update_active_surveillance(&self.active_surveillance, &mut self.store, &mut self.rng);
        proof {
            assert(moved_by_events(
                start.farm_ids@,
                after_within.compartments@,
                after_between.compartments@,
                day_events(events),
            ));
            assert(day_composition(
                &start,
                self.store.compartments@,
                self.disease_parameters,
                self.active_surveillance,
                day_events(events),
            )) by {
                assert(within_day(
                    &start,
                    after_within.compartments@,
                    self.disease_parameters,
                ));
            }
        }
        let prevalence = if run_passive {
            Some(update_passive_surveillance(&mut self.passive, &self.store, &mut self.rng, &self.time))
        } else {
            None
        };
        Ok(DayOutcome { events, prevalence })
    }
}

/// Each farm moves from `from` to `to` by the day's between-herd events:
/// it loses one susceptible animal to infection per event naming it as target.
pub open spec fn moved_by_events(
    ids: Seq<FarmId>,
    from: Seq<DiseaseCompartments>,
    to: Seq<DiseaseCompartments>,
    events: Seq<(FarmId, FarmId, usize)>,
) -> bool {
    &&& to.len() == ids.len()
    &&& forall|f: int|
        0 <= f < ids.len() ==> {
            &&& (#[trigger] to[f]).susceptible.0 == from[f].susceptible.0 - count_target(
                events,
                ids[f],
            )
            &&& to[f].infected.0 == from[f].infected.0 + count_target(events, ids[f])
            &&& to[f].recovered == from[f].recovered
        }
}

/// `after` is what within-herd dynamics can make of every farm of `store`.
pub open spec fn within_day(
    store: &FarmStore,
    after: Seq<DiseaseCompartments>,
    params: DiseaseParameters,
) -> bool {
    &&& after.len() == store.len()
    &&& forall|i: int|
        0 <= i < store.len() ==> within_herd_outcome(
            store.compartments@[i],
            store.herd_sizes@[i],
            params,
            #[trigger] after[i],
        )
}

/// `last` is what one day makes of the farms of `store`: within-herd
/// dynamics, then the day's between-herd `events`, then active surveillance.
pub open spec fn day_composition(
    store: &FarmStore,
    last: Seq<DiseaseCompartments>,
    params: DiseaseParameters,
    reg: ActiveSurveillance,
    events: Seq<(FarmId, FarmId, usize)>,
) -> bool {
    exists|after_within: Seq<DiseaseCompartments>, after_between: Seq<DiseaseCompartments>|
        #![trigger within_day(store, after_within, params), moved_by_events(store.farm_ids@, after_within, after_between, events)]
        within_day(store, after_within, params) && moved_by_events(
            store.farm_ids@,
            after_within,
            after_between,
            events,
        ) && last.len() == store.len() && forall|i: int|
            0 <= i < store.len() ==> active_outcome(after_between[i], reg, #[trigger] last[i])
}

} // verus!
