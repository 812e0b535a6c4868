//! Between-herd spread: infected farms send animals to adjacent farms, and a
//! batch may carry the infection to its target.
//!
//! Each day first selects, without mutating anything, the infected farms that
//! send a batch, and snapshots their infection pressure. Then, origin by
//! origin in store order, it draws a target among the origin's adjacent farms
//! and whether the contact transmits, and applies each transmission to the
//! live target at once, so that targets hit twice in a day are counted right.

use rand::rngs::StdRng;
use vstd::prelude::*;

use crate::errors::SimulationError;
use crate::farm_store::{FarmStore, fits_herd};
use crate::parameters::{PARTS_PER_UNIT, Probability};
use crate::populations::{AdjacentFarms, FarmId, HerdSize};
use crate::random::{bernoulli_outcome, bernoulli_ratio, draw_below};
use crate::scenario_time::{ScenarioTime, Time};
use crate::compartment_counts::{count_infected, lemma_count_infected_step};
use crate::sir_spread_model::{
    DiseaseCompartments,
    DiseaseParameters,
    Infected,
    Susceptible,
    lemma_within_herd_outcome_conserves,
    seeded,
    within_herd_outcome,
};

verus! {

/// Probability that an infected farm sends a batch of animals on a given day.
#[derive(Debug, Clone, Copy, PartialEq, Eq, Structural)]
pub struct ContactRate(pub Probability);

impl ContactRate {
    pub fn new(contact_rate: Probability) -> (r: ContactRate)
        ensures
            r.0 == contact_rate,
    {
        ContactRate(contact_rate)
    }
}

/// One day's between-herd transmissions, tagged with the day and a batch id.
#[derive(Debug, Clone, PartialEq, Eq)]
pub struct InfectionEvents {
    /// Scenario time of the infection events.
    pub scenario_tick: Time,
    /// Number of the batch; counts the days on which some transmission happened.
    pub batch_id: usize,
    /// `(origin farm, target farm, new infections)` in the order they happened.
    pub events_values: Vec<(FarmId, FarmId, usize)>,
}

/// State of the between-herd spread process.
#[derive(Debug, Clone, Copy, PartialEq, Eq, Structural)]
pub struct BetweenHerdSpreadModel {
    /// Id of the last batch of infection events put out.
    pub current_batch_id: usize,
    /// Daily probability that an infected farm sends animals.
    pub contact_rate: ContactRate,
}

/// Start the between-herd spread process; it needs a contact rate.
pub fn setup_between_herd_spread_model(initial_contact_rate: Option<ContactRate>) -> (r: Option<
    BetweenHerdSpreadModel,
>)
    ensures
        match initial_contact_rate {
            Some(rate) => r == Some(
                BetweenHerdSpreadModel { current_batch_id: 0, contact_rate: rate },
            ),
            None => r.is_none(),
        },
{
    match initial_contact_rate {
        Some(rate) => Some(BetweenHerdSpreadModel { current_batch_id: 0, contact_rate: rate }),
        None => None,
    }
}

/// What the selection phase keeps of a sending farm.
#[derive(Debug, Clone, Copy, PartialEq, Eq, Structural)]
pub struct Origin {
    pub handle: usize,
    pub farm_id: FarmId,
    pub infected: Infected,
    pub herd_size: HerdSize,
}

/// `o` is a faithful snapshot of an infected farm of `store`.
pub open spec fn is_origin_of(store: &FarmStore, o: Origin) -> bool {
    &&& o.handle < store.len()
    &&& o.farm_id == store.farm_ids@[o.handle as int]
    &&& o.infected == store.compartments@[o.handle as int].infected
    &&& o.herd_size == store.herd_sizes@[o.handle as int]
    &&& o.infected.0 > 0
}

/// The snapshot of farm `h` that the selection phase keeps.
pub open spec fn origin_at(store: &FarmStore, h: int) -> Origin {
    Origin {
        handle: h as usize,
        farm_id: store.farm_ids@[h],
        infected: store.compartments@[h].infected,
        herd_size: store.herd_sizes@[h],
    }
}

/// The origins that the first `k` farms give, in store order, when farm `h`
/// draws `draws[h]` below `PARTS_PER_UNIT`: each infected farm whose draw
/// falls below the contact probability.
pub open spec fn selected(store: &FarmStore, contact_rate: ContactRate, draws: Seq<int>, k: nat) -> Seq<
    Origin,
>
    decreases k,
{
    if k == 0 {
        Seq::empty()
    } else {
        let prev = selected(store, contact_rate, draws, (k - 1) as nat);
        let h = k - 1;
        if store.compartments@[h].infected.0 > 0 && draws[h] < contact_rate.0.0 {
            prev.push(origin_at(store, h))
        } else {
            prev
        }
    }
}

proof fn lemma_selected_push(
    store: &FarmStore,
    contact_rate: ContactRate,
    draws: Seq<int>,
    x: int,
    k: nat,
)
    requires
        k <= draws.len(),
    ensures
        selected(store, contact_rate, draws.push(x), k) == selected(store, contact_rate, draws, k),
    decreases k,
{
    if k > 0 {
        lemma_selected_push(store, contact_rate, draws, x, (k - 1) as nat);
        assert(draws.push(x)[k - 1] == draws[k - 1]);
    }
}

/// Selection phase: in store order, each infected farm takes one draw and
/// sends animals when it falls below the contact probability; an uninfected
/// farm takes no draw. Reads the store and mutates nothing.
pub fn select_origins(store: &FarmStore, contact_rate: ContactRate, rng: &mut StdRng) -> (r: Vec<
    Origin,
>)
    requires
        store.wf(),
    ensures
        exists|draws: Seq<int>|
            draws.len() == store.len() && (forall|i: int|
                0 <= i < draws.len() ==> 0 <= #[trigger] draws[i] < PARTS_PER_UNIT) && r@
                == selected(store, contact_rate, draws, store.len()),
        forall|k: int| 0 <= k < r@.len() ==> is_origin_of(store, #[trigger] r@[k]),
        forall|a: int, b: int|
            #![trigger r@[a], r@[b]]
            0 <= a < b < r@.len() ==> r@[a].handle < r@[b].handle,
        r@.len() <= count_infected(store.compartments@),
        contact_rate.0.0 == 0 ==> r@.len() == 0,
        contact_rate.0.0 >= PARTS_PER_UNIT ==> forall|h: int|
            0 <= h < store.len() && (#[trigger] store.compartments@[h]).infected.0 > 0 ==> exists|
                k: int,
            | 0 <= k < r@.len() && #[trigger] r@[k].handle == h,
{
    let mut origins: Vec<Origin> = Vec::new();
    let n = store.compartments.len();
    let mut i: usize = 0;
    let ghost mut draws: Seq<int> = Seq::empty();
    while i < n
        invariant
            store.wf(),
            n == store.len(),
            i <= n,
            draws.len() == i,
            forall|j: int| 0 <= j < draws.len() ==> 0 <= #[trigger] draws[j] < PARTS_PER_UNIT,
            origins@ == selected(store, contact_rate, draws, i as nat),
            forall|k: int|
                0 <= k < origins@.len() ==> is_origin_of(store, #[trigger] origins@[k])
                    && origins@[k].handle < i,
            forall|a: int, b: int|
                #![trigger origins@[a], origins@[b]]
                0 <= a < b < origins@.len() ==> origins@[a].handle < origins@[b].handle,
            origins@.len() <= count_infected(store.compartments@.subrange(0, i as int)),
            contact_rate.0.0 == 0 ==> origins@.len() == 0,
            contact_rate.0.0 >= PARTS_PER_UNIT ==> forall|h: int|
                0 <= h < i && (#[trigger] store.compartments@[h]).infected.0 > 0 ==> exists|
                    k: int,
                | 0 <= k < origins@.len() && #[trigger] origins@[k].handle == h,
        decreases n - i,
    {
        proof {
            lemma_count_infected_step(store.compartments@, i as int);
        }
        let ghost prev = origins@;
        let infected = store.compartments[i].infected;
        if infected.0 > 0 {
            let d = draw_below(rng, PARTS_PER_UNIT);
            proof {
                lemma_selected_push(store, contact_rate, draws, d as int, i as nat);
                draws = draws.push(d as int);
            }
            if bernoulli_outcome(contact_rate.0, d) {
                origins.push(
                    Origin {
                        handle: i,
                        farm_id: store.farm_ids[i],
                        infected,
                        herd_size: store.herd_sizes[i],
                    },
                );
                proof {
                    assert(origins@[origins@.len() - 1].handle == i);
                }
            }
        } else {
            proof {
                lemma_selected_push(store, contact_rate, draws, 0, i as nat);
                draws = draws.push(0);
            }
        }
        proof {
            if contact_rate.0.0 >= PARTS_PER_UNIT {
                assert forall|h: int|
                    0 <= h < i + 1 && (#[trigger] store.compartments@[h]).infected.0 > 0 implies exists|
                        k: int,
                    | 0 <= k < origins@.len() && #[trigger] origins@[k].handle == h by {
                    if h < i {
                        let k = choose|k: int| 0 <= k < prev.len() && #[trigger] prev[k].handle == h;
                        assert(origins@[k] == prev[k]);
                    } else {
                        assert(origins@[origins@.len() - 1].handle == h);
                    }
                }
            }
        }
        i = i + 1;
    }
    proof {
        assert(store.compartments@.subrange(0, n as int) =~= store.compartments@);
    }
    origins
}

/// Transmit the infection to the live farm `target`: when it has a
/// susceptible animal, that animal becomes infected and the result is `true`.
/// Fails when no farm has the id `target`.
pub fn apply_contact(store: &mut FarmStore, target: FarmId) -> (r: Result<bool, SimulationError>)
    requires
        old(store).wf(),
    ensures
        final(store).wf(),
        final(store).same_topology(old(store)),
        match r {
            Err(e) => {
                &&& e == SimulationError::UnknownFarm(target)
                &&& forall|i: int|
                    0 <= i < old(store).len() ==> #[trigger] old(store).farm_ids@[i] != target
                &&& final(store).compartments@ == old(store).compartments@
            },
            Ok(infected) => exists|h: int|
                0 <= h < old(store).len() && #[trigger] old(store).farm_ids@[h] == target && (
                infected <==> old(store).compartments@[h].susceptible.0 >= 1) && (if infected {
                    final(store).compartments@ == old(store).compartments@.update(
                        h,
                        seeded(old(store).compartments@[h]),
                    )
                } else {
                    final(store).compartments@ == old(store).compartments@
                }),
        },
{
    match store.handle_of(target) {
        None => Err(SimulationError::UnknownFarm(target)),
        Some(h) => {
            let c = store.compartments[h];
            if c.susceptible.0 >= 1 {
                let next = DiseaseCompartments {
                    susceptible: Susceptible(c.susceptible.0 - 1),
                    infected: Infected(c.infected.0 + 1),
                    recovered: c.recovered,
                };
                store.compartments.set(h, next);
                Ok(true)
            } else {
                Ok(false)
            }
        },
    }
}

/// Total susceptible animals over the farms.
pub open spec fn total_susceptible(cs: Seq<DiseaseCompartments>) -> int
    decreases cs.len(),
{
    if cs.len() == 0 {
        0
    } else {
        total_susceptible(cs.drop_last()) + cs.last().susceptible.0
    }
}

proof fn lemma_total_susceptible_update(cs: Seq<DiseaseCompartments>, h: int, c: DiseaseCompartments)
    requires
        0 <= h < cs.len(),
    ensures
        total_susceptible(cs.update(h, c)) == total_susceptible(cs) - cs[h].susceptible.0
            + c.susceptible.0,
    decreases cs.len(),
{
    let u = cs.update(h, c);
    if h == cs.len() - 1 {
        assert(u.drop_last() =~= cs.drop_last());
    } else {
        assert(u.drop_last() =~= cs.drop_last().update(h, c));
        lemma_total_susceptible_update(cs.drop_last(), h, c);
    }
}

/// Between-herd movements only move animals from susceptible to infected:
/// each farm keeps `S + I` and `R`, and `S` does not grow.
pub open spec fn only_infections(before: DiseaseCompartments, after: DiseaseCompartments) -> bool {
    &&& after.susceptible.0 + after.infected.0 == before.susceptible.0 + before.infected.0
    &&& after.recovered == before.recovered
    &&& after.susceptible.0 <= before.susceptible.0
}

/// `e` records one new infection carried from an infected farm of `store` to
/// one of that farm's adjacent farms.
pub open spec fn valid_event(store: &FarmStore, e: (FarmId, FarmId, usize)) -> bool {
    &&& e.2 == 1
    &&& exists|h: int|
        0 <= h < store.len() && #[trigger] store.farm_ids@[h] == e.0
            && store.compartments@[h].infected.0 > 0 && store.adjacency@[h].0@.contains(e.1)
}

/// Some farm has the id `id`.
pub open spec fn known_farm(store: &FarmStore, id: FarmId) -> bool {
    exists|j: int| 0 <= j < store.len() && #[trigger] store.farm_ids@[j] == id
}

/// Every infected farm has some farm to send animals to, and every farm it
/// may send animals to exists.
pub open spec fn adjacency_sound(store: &FarmStore) -> bool {
    forall|h: int|
        0 <= h < store.len() && (#[trigger] store.compartments@[h]).infected.0 > 0 ==> {
            &&& store.adjacency@[h].0@.len() > 0
            &&& forall|k: int|
                0 <= k < store.adjacency@[h].0@.len() ==> known_farm(
                    store,
                    #[trigger] store.adjacency@[h].0@[k],
                )
        }
}

/// Every farm has some farm to send animals to, and every farm it may send
/// animals to exists.
pub open spec fn topology_sound(store: &FarmStore) -> bool {
    forall|h: int|
        0 <= h < store.len() ==> {
            &&& (#[trigger] store.adjacency@[h]).0@.len() > 0
            &&& forall|k: int|
                0 <= k < store.adjacency@[h].0@.len() ==> known_farm(
                    store,
                    #[trigger] store.adjacency@[h].0@[k],
                )
        }
}

/// A sound topology stays sound whatever the compartments.
pub proof fn lemma_topology_sound_adjacency(a: &FarmStore, b: &FarmStore)
    requires
        topology_sound(a),
        b.same_topology(a),
        a.wf(),
        b.wf(),
    ensures
        adjacency_sound(b),
{
    assert forall|h: int| 0 <= h < b.len() && (#[trigger] b.compartments@[h]).infected.0 > 0 implies {
        &&& b.adjacency@[h].0@.len() > 0
        &&& forall|k: int|
            0 <= k < b.adjacency@[h].0@.len() ==> known_farm(b, #[trigger] b.adjacency@[h].0@[k])
    } by {
        assert(a.adjacency@[h] == b.adjacency@[h]);
        assert forall|k: int| 0 <= k < b.adjacency@[h].0@.len() implies known_farm(
            b,
            #[trigger] b.adjacency@[h].0@[k],
        ) by {
            assert(known_farm(a, a.adjacency@[h].0@[k]));
            let j = choose|j: int| 0 <= j < a.len() && #[trigger] a.farm_ids@[j] == a.adjacency@[h].0@[k];
            assert(b.farm_ids@[j] == a.farm_ids@[j]);
        }
    }
}

/// Farm `h` is wholly infected, and every farm it may send animals to has a
/// susceptible animal: a batch from it surely transmits.
pub open spec fn sure_origin(store: &FarmStore, h: int) -> bool {
    &&& 0 <= h < store.len()
    &&& store.compartments@[h].infected.0 > 0
    &&& store.compartments@[h].infected.0 == store.herd_sizes@[h].0
    &&& forall|k: int, j: int|
        #![trigger store.adjacency@[h].0@[k], store.farm_ids@[j]]
        0 <= k < store.adjacency@[h].0@.len() && 0 <= j < store.len() && store.farm_ids@[j]
            == store.adjacency@[h].0@[k] ==> store.compartments@[j].susceptible.0 >= 1
}

/// Number of events whose target is the farm `id`.
pub open spec fn count_target(events: Seq<(FarmId, FarmId, usize)>, id: FarmId) -> int
    decreases events.len(),
{
    if events.len() == 0 {
        0
    } else {
        count_target(events.drop_last(), id) + if events.last().1 == id {
            1int
        } else {
            0int
        }
    }
}

/// Each farm lost one susceptible animal to infection per event naming it as
/// target, and kept its recovered animals.
pub open spec fn infected_by_events(
    before: &FarmStore,
    after: Seq<DiseaseCompartments>,
    events: Seq<(FarmId, FarmId, usize)>,
) -> bool {
    forall|f: int|
        0 <= f < before.len() ==> {
            &&& (#[trigger] after[f]).susceptible.0 == before.compartments@[f].susceptible.0
                - count_target(events, before.farm_ids@[f])
            &&& after[f].infected.0 == before.compartments@[f].infected.0 + count_target(
                events,
                before.farm_ids@[f],
            )
            &&& after[f].recovered == before.compartments@[f].recovered
        }
}

/// The events come from distinct origins, taken in the origins' order: the
/// `j`-th event comes from origin `ms[j]`, to one of its adjacent farms.
pub open spec fn events_from_origins(
    before: &FarmStore,
    events: Seq<(FarmId, FarmId, usize)>,
    origins: Seq<Origin>,
) -> bool {
    exists|ms: Seq<int>| #[trigger]
        events_follow(before, events, origins, ms)
}

/// `ms` maps the events to distinct origins, in order.
pub open spec fn events_follow(
    before: &FarmStore,
    events: Seq<(FarmId, FarmId, usize)>,
    origins: Seq<Origin>,
    ms: Seq<int>,
) -> bool {
    &&& ms.len() == events.len()
    &&& forall|a: int, b: int| #![trigger ms[a], ms[b]] 0 <= a < b < ms.len() ==> ms[a] < ms[b]
    &&& forall|j: int|
        0 <= j < ms.len() ==> {
            &&& 0 <= #[trigger] ms[j] < origins.len()
            &&& events[j].0 == origins[ms[j]].farm_id
            &&& before.adjacency@[origins[ms[j]].handle as int].0@.contains(events[j].1)
        }
}

/// Where a batch from `origin` goes and whether it transmits: the target is
/// the adjacent farm at `pick`, and the batch transmits when the draw below
/// the herd size falls below the infected animals, with probability
/// infected / herd size.
pub fn contact_decision(
    origin: &Origin,
    adjacent: &AdjacentFarms,
    pick: usize,
    transmission_draw: u64,
) -> (r: (FarmId, bool))
    requires
        pick < adjacent.0@.len(),
    ensures
        r.0 == adjacent.0@[pick as int],
        r.1 == (transmission_draw < origin.infected.0),
{
    (adjacent.0[pick], transmission_draw < origin.infected.0 as u64)
}

proof fn lemma_count_target_push(
    events: Seq<(FarmId, FarmId, usize)>,
    e: (FarmId, FarmId, usize),
    id: FarmId,
)
    ensures
        count_target(events.push(e), id) == count_target(events, id) + if e.1 == id {
            1int
        } else {
            0int
        },
{
    assert(events.push(e).drop_last() =~= events);
}

/// State of a day's spread after some contacts: compartments, events so
/// far, and the error that stopped it, if any.
pub type SpreadState = (Seq<DiseaseCompartments>, Seq<(FarmId, FarmId, usize)>, Option<SimulationError>);

/// The farm of `store` with the id `id`, when there is one.
pub open spec fn handle_for(store: &FarmStore, id: FarmId) -> int {
    choose|j: int| 0 <= j < store.len() && #[trigger] store.farm_ids@[j] == id
}

/// One contact from `origin`, with the adjacent farm at `pick` as target,
/// transmitting when `transmission_draw` (below the herd size) falls below
/// the origin's infected animals; a transmission infects one susceptible
/// animal of the target, if it has one.
pub open spec fn spread_step(
    store: &FarmStore,
    st: SpreadState,
    origin: Origin,
    pick: int,
    transmission_draw: int,
) -> SpreadState {
    let adjacent = store.adjacency@[origin.handle as int].0@;
    if st.2.is_some() {
        st
    } else if adjacent.len() == 0 {
        (st.0, st.1, Some(SimulationError::EmptyAdjacency(origin.farm_id)))
    } else if !(transmission_draw < origin.infected.0) {
        st
    } else if !known_farm(store, adjacent[pick]) {
        (st.0, st.1, Some(SimulationError::UnknownFarm(adjacent[pick])))
    } else {
        let t = handle_for(store, adjacent[pick]);
        if st.0[t].susceptible.0 >= 1 {
            (st.0.update(t, seeded(st.0[t])), st.1.push((origin.farm_id, adjacent[pick], 1usize)), None)
        } else {
            st
        }
    }
}

/// The contacts of the first `draws.len()` origins, in order, the `k`-th
/// with the pick and transmission draw `draws[k]`.
pub open spec fn spread_run(store: &FarmStore, origins: Seq<Origin>, draws: Seq<(int, int)>) -> SpreadState
    decreases draws.len(),
{
    if draws.len() == 0 {
        (store.compartments@, Seq::empty(), None)
    } else {
        spread_step(
            store,
            spread_run(store, origins, draws.drop_last()),
            origins[draws.len() - 1],
            draws.last().0,
            draws.last().1,
        )
    }
}

/// The contact draws lie in their ranges: a pick below the number of
/// adjacent farms, and a transmission draw below the origin's herd size.
pub open spec fn contact_draws_valid(store: &FarmStore, origins: Seq<Origin>, draws: Seq<(int, int)>) -> bool {
    &&& draws.len() <= origins.len()
    &&& forall|k: int|
        0 <= k < draws.len() ==> {
            &&& 0 <= (#[trigger] draws[k]).1 < origins[k].herd_size.0
            &&& store.adjacency@[origins[k].handle as int].0@.len() > 0 ==> 0 <= draws[k].0
                < store.adjacency@[origins[k].handle as int].0@.len()
        }
}

/// The events of a day, none when there were none.
pub open spec fn day_events(events: Option<InfectionEvents>) -> Seq<(FarmId, FarmId, usize)> {
    match events {
        Some(e) => e.events_values@,
        None => Seq::empty(),
    }
}

/// `r` and `last` are what the contacts give: on success every origin made
/// its contact and `last` and the events are the run's; on failure the run
/// stopped with that error.
pub open spec fn spread_outcome(
    store: &FarmStore,
    origins: Seq<Origin>,
    draws: Seq<(int, int)>,
    r: Result<Option<InfectionEvents>, SimulationError>,
    last: Seq<DiseaseCompartments>,
) -> bool {
    let st = spread_run(store, origins, draws);
    match r {
        Ok(events) => {
            &&& draws.len() == origins.len()
            &&& st.2.is_none()
            &&& last == st.0
            &&& day_events(events) == st.1
        },
        Err(e) => st.2 == Some(e),
    }
}

/// One day of between-herd spread.
///
/// Selects the sending farms, then for each in turn draws a target among its
/// adjacent farms and whether the contact transmits, with probability
/// infected / herd size of the sender as selected. A transmission infects one
/// susceptible animal of the live target, if it has one, and is recorded.
/// When anything was recorded, the batch id advances and the day's events are
/// returned under it. Fails when a sender has no adjacent farm or a target id
/// belongs to no farm.
pub fn update_between_herd_spread_model(
    model: &mut BetweenHerdSpreadModel,
    store: &mut FarmStore,
    rng: &mut StdRng,
    scenario_tick: &ScenarioTime,
) -> (r: Result<Option<InfectionEvents>, SimulationError>)
    requires
        old(store).wf(),
        scenario_tick.readable(),
        old(model).current_batch_id < usize::MAX,
    ensures
        final(store).wf(),
        final(store).same_topology(old(store)),
        forall|i: int|
            0 <= i < old(store).len() ==> only_infections(
                old(store).compartments@[i],
                #[trigger] final(store).compartments@[i],
            ),
        final(model).contact_rate == old(model).contact_rate,
        adjacency_sound(old(store)) ==> r.is_ok(),
        exists|selection: Seq<int>, contacts: Seq<(int, int)>|
            #![trigger selected(old(store), old(model).contact_rate, selection, old(store).len()), spread_run(old(store), selected(old(store), old(model).contact_rate, selection, old(store).len()), contacts)]
            selection.len() == old(store).len() && (forall|i: int|
                0 <= i < selection.len() ==> 0 <= #[trigger] selection[i] < PARTS_PER_UNIT)
                && contact_draws_valid(
                old(store),
                selected(old(store), old(model).contact_rate, selection, old(store).len()),
                contacts,
            ) && spread_outcome(
                old(store),
                selected(old(store), old(model).contact_rate, selection, old(store).len()),
                contacts,
                r,
                final(store).compartments@,
            ),
        adjacency_sound(old(store)) && old(model).contact_rate.0.0 >= PARTS_PER_UNIT && (exists|
            h: int,
        | sure_origin(old(store), h)) ==> r matches Ok(Some(_)),
        match r {
            Ok(Some(events)) => {
                &&& final(model).current_batch_id == old(model).current_batch_id + 1
                &&& events.batch_id == final(model).current_batch_id
                &&& events.scenario_tick == scenario_tick.now()
                &&& events.events_values@.len() > 0
                &&& events.events_values@.len() <= count_infected(old(store).compartments@)
                &&& forall|k: int|
                    0 <= k < events.events_values@.len() ==> valid_event(
                        old(store),
                        #[trigger] events.events_values@[k],
                    )
                &&& infected_by_events(
                    old(store),
                    final(store).compartments@,
                    events.events_values@,
                )
                &&& total_susceptible(old(store).compartments@) - total_susceptible(
                    final(store).compartments@,
                ) == events.events_values@.len()
                &&& exists|draws: Seq<int>|
                    draws.len() == old(store).len() && (forall|i: int|
                        0 <= i < draws.len() ==> 0 <= #[trigger] draws[i] < PARTS_PER_UNIT)
                        && events_from_origins(
                        old(store),
                        events.events_values@,
                        selected(old(store), old(model).contact_rate, draws, old(store).len()),
                    )
            },
            Ok(None) => {
                &&& final(model).current_batch_id == old(model).current_batch_id
                &&& final(store).compartments@ == old(store).compartments@
            },
            Err(SimulationError::EmptyAdjacency(id)) => exists|h: int|
                0 <= h < old(store).len() && #[trigger] old(store).farm_ids@[h] == id
                    && old(store).compartments@[h].infected.0 > 0
                    && old(store).adjacency@[h].0@.len() == 0,
            Err(SimulationError::UnknownFarm(id)) => {
                &&& !known_farm(old(store), id)
                &&& exists|h: int|
                    0 <= h < old(store).len() && (#[trigger] old(store).compartments@[h]).infected.0
                        > 0 && old(store).adjacency@[h].0@.contains(id)
            },
            Err(_) => false,
        },
{
    let ghost before = *store;
    let origins = select_origins(store, model.contact_rate, rng);
    let ghost sd = choose|draws: Seq<int>|
        draws.len() == before.len() && (forall|i: int|
            0 <= i < draws.len() ==> 0 <= #[trigger] draws[i] < PARTS_PER_UNIT) && origins@
            == selected(&before, model.contact_rate, draws, before.len());
    let mut events: Vec<(FarmId, FarmId, usize)> = Vec::new();
    let ghost mut ms: Seq<int> = Seq::empty();
    let ghost mut cd: Seq<(int, int)> = Seq::empty();
    let mut k: usize = 0;
    while k < origins.len()
        invariant
            before == *old(store),
            before.wf(),
            store.wf(),
            store.same_topology(&before),
            k <= origins@.len(),
            forall|j: int| 0 <= j < origins@.len() ==> is_origin_of(&before, #[trigger] origins@[j]),
            forall|a: int, b: int|
                #![trigger origins@[a], origins@[b]]
                0 <= a < b < origins@.len() ==> origins@[a].handle < origins@[b].handle,
            forall|i: int|
                0 <= i < before.len() ==> only_infections(
                    before.compartments@[i],
                    #[trigger] store.compartments@[i],
                ),
            infected_by_events(&before, store.compartments@, events@),
            forall|j: int|
                0 <= j < events@.len() ==> valid_event(&before, #[trigger] events@[j]),
            total_susceptible(before.compartments@) - total_susceptible(store.compartments@)
                == events@.len(),
            events@.len() == 0 ==> store.compartments@ == before.compartments@,
            events@.len() <= k,
            events_follow(&before, events@, origins@, ms),
            forall|j: int| 0 <= j < ms.len() ==> #[trigger] ms[j] < k,
            adjacency_sound(&before) && (exists|j: int|
                0 <= j < k && sure_origin(&before, #[trigger] origins@[j].handle as int))
                ==> events@.len() > 0,
            origins@ == selected(&before, model.contact_rate, sd, before.len()),
            sd.len() == before.len(),
            forall|i: int| 0 <= i < sd.len() ==> 0 <= #[trigger] sd[i] < PARTS_PER_UNIT,
            cd.len() == k,
            contact_draws_valid(&before, origins@, cd),
            spread_run(&before, origins@, cd) == (
                store.compartments@,
                events@,
                None::<SimulationError>,
            ),
            model.contact_rate == old(model).contact_rate,
        decreases origins@.len() - k,
    {
        let origin = origins[k];
        let h = origin.handle;
        let n_adjacent = store.adjacency[h].0.len();
        proof {
            assert(is_origin_of(&before, origins@[k as int]));
        }
        if n_adjacent == 0 {
            proof {
                assert(before.farm_ids@[h as int] == origin.farm_id);
                let cd2 = cd.push((0int, 0int));
                assert(cd2.drop_last() =~= cd);
                assert(contact_draws_valid(&before, origins@, cd2));
                assert(spread_run(&before, origins@, cd2).2 == Some(
                    SimulationError::EmptyAdjacency(origin.farm_id),
                ));
                assert(contact_draws_valid(
                    &before,
                    selected(&before, model.contact_rate, sd, before.len()),
                    cd2,
                ));
                assert(spread_outcome(
                    &before,
                    selected(&before, model.contact_rate, sd, before.len()),
                    cd2,
                    Err::<Option<InfectionEvents>, SimulationError>(SimulationError::EmptyAdjacency(origin.farm_id)),
                    store.compartments@,
                ));
            }
            return Err(SimulationError::EmptyAdjacency(origin.farm_id));
        }
        proof {
            assert(crate::farm_store::fits_herd(
                before.compartments@[h as int],
                before.herd_sizes@[h as int],
            ));
        }
        let pick = draw_below(rng, n_adjacent as u64) as usize;
        let transmission_draw = draw_below(rng, origin.herd_size.0 as u64);
        let (target, transmits) = contact_decision(
            &origin,
            &store.adjacency[h],
            pick,
            transmission_draw,
        );
        proof {
            assert(before.adjacency@[h as int].0@[pick as int] == target);
            assert(before.adjacency@[h as int].0@.contains(target));
        }
        let ghost ev_before = events@;
        let ghost had_events = events@.len() > 0;
        let ghost c_before = store.compartments@;
        let ghost cd2 = cd.push((pick as int, transmission_draw as int));
        proof {
            assert(cd2.drop_last() =~= cd);
            assert(contact_draws_valid(&before, origins@, cd2));
        }
        if transmits {
            let ghost mid = *store;
            let infected = apply_contact(store, target);
            match infected {
                Err(e) => {
                    proof {
                        if adjacency_sound(&before) {
                            assert(known_farm(&before, before.adjacency@[h as int].0@[pick as int]));
                        }
                        assert(!known_farm(&before, target));
                        assert(spread_run(&before, origins@, cd2).2 == Some(e));
                        assert(contact_draws_valid(
                            &before,
                            selected(&before, model.contact_rate, sd, before.len()),
                            cd2,
                        ));
                        assert(spread_outcome(
                            &before,
                            selected(&before, model.contact_rate, sd, before.len()),
                            cd2,
                            Err::<Option<InfectionEvents>, SimulationError>(e),
                            store.compartments@,
                        ));
                    }
                    return Err(e);
                },
                Ok(true) => {
                    proof {
                        let t = choose|t: int|
                            0 <= t < mid.len() && #[trigger] mid.farm_ids@[t] == target && (
                            mid.compartments@[t].susceptible.0 >= 1) && store.compartments@
                                == mid.compartments@.update(t, seeded(mid.compartments@[t]));
                        lemma_total_susceptible_update(
                            mid.compartments@,
                            t,
                            seeded(mid.compartments@[t]),
                        );
                        assert(before.farm_ids@[h as int] == origin.farm_id);
                        assert forall|i: int|
                            0 <= i < before.len() implies only_infections(
                            before.compartments@[i],
                            #[trigger] store.compartments@[i],
                        ) by {
                            if i != t {
                                assert(store.compartments@[i] == mid.compartments@[i]);
                            }
                        }
                        let e = (origin.farm_id, target, 1usize);
                        assert forall|f: int| 0 <= f < before.len() implies {
                            &&& (#[trigger] store.compartments@[f]).susceptible.0
                                == before.compartments@[f].susceptible.0 - count_target(
                                ev_before.push(e),
                                before.farm_ids@[f],
                            )
                            &&& store.compartments@[f].infected.0
                                == before.compartments@[f].infected.0 + count_target(
                                ev_before.push(e),
                                before.farm_ids@[f],
                            )
                            &&& store.compartments@[f].recovered
                                == before.compartments@[f].recovered
                        } by {
                            lemma_count_target_push(ev_before, e, before.farm_ids@[f]);
                            assert(mid.compartments@[f] == mid.compartments@[f]);
                            if f != t {
                                assert(store.compartments@[f] == mid.compartments@[f]);
                                if before.farm_ids@[f] == target {
                                    before.lemma_ids_unique(f, t);
                                }
                            }
                        }
                    }
                    events.push((origin.farm_id, target, 1));
                    proof {
                        assert(events@ =~= ev_before.push((origin.farm_id, target, 1usize)));
                        assert(valid_event(&before, events@[events@.len() - 1]));
                        let ms2 = ms.push(k as int);
                        assert(events_follow(&before, events@, origins@, ms2)) by {
                            assert forall|j: int| 0 <= j < ms2.len() implies {
                                &&& 0 <= #[trigger] ms2[j] < origins@.len()
                                &&& events@[j].0 == origins@[ms2[j]].farm_id
                                &&& before.adjacency@[origins@[ms2[j]].handle as int].0@.contains(
                                    events@[j].1,
                                )
                            } by {
                                if j < ms.len() {
                                    assert(ms2[j] == ms[j]);
                                    assert(events@[j] == ev_before[j]);
                                }
                            }
                        }
                        ms = ms2;
                        let t = choose|t: int|
                            0 <= t < mid.len() && #[trigger] mid.farm_ids@[t] == target && (
                            mid.compartments@[t].susceptible.0 >= 1) && store.compartments@
                                == mid.compartments@.update(t, seeded(mid.compartments@[t]));
                        assert(known_farm(&before, target));
                        let tt = handle_for(&before, target);
                        before.lemma_ids_unique(t, tt);
                        assert(spread_run(&before, origins@, cd2) == (
                            store.compartments@,
                            events@,
                            None::<SimulationError>,
                        ));
                        cd = cd2;
                    }
                },
                Ok(false) => {
                    proof {
                        let t = choose|t: int|
                            0 <= t < mid.len() && #[trigger] mid.farm_ids@[t] == target && (
                            false <==> mid.compartments@[t].susceptible.0 >= 1);
                        assert(known_farm(&before, target));
                        let tt = handle_for(&before, target);
                        before.lemma_ids_unique(t, tt);
                        assert(spread_run(&before, origins@, cd2) == (
                            store.compartments@,
                            events@,
                            None::<SimulationError>,
                        ));
                        cd = cd2;
                        if adjacency_sound(&before) && sure_origin(&before, h as int) && !had_events {
                            let t = choose|t: int|
                                0 <= t < mid.len() && #[trigger] mid.farm_ids@[t] == target && (
                                false <==> mid.compartments@[t].susceptible.0 >= 1);
                            assert(before.adjacency@[h as int].0@[pick as int] == before.farm_ids@[t]);
                        }
                    }
                },
            }
        } else {
            proof {
                if sure_origin(&before, h as int) {
                    assert(transmission_draw < origin.herd_size.0);
                }
                assert(spread_run(&before, origins@, cd2) == (
                    store.compartments@,
                    events@,
                    None::<SimulationError>,
                ));
                cd = cd2;
            }
        }
        proof {
            assert forall|j: int| 0 <= j < ms.len() implies #[trigger] ms[j] < k + 1 by {}
            if adjacency_sound(&before) && (exists|j: int|
                0 <= j < k + 1 && sure_origin(&before, #[trigger] origins@[j].handle as int)) {
                let j = choose|j: int|
                    0 <= j < k + 1 && sure_origin(&before, #[trigger] origins@[j].handle as int);
                if j < k {
                    assert(ev_before.len() > 0);
                }
            }
        }
        k = k + 1;
    }
    proof {
        assert(events_from_origins(&before, events@, origins@));
        if adjacency_sound(&before) && model.contact_rate.0.0 >= PARTS_PER_UNIT && (exists|h: int|
            sure_origin(&before, h)) {
            let h = choose|h: int| sure_origin(&before, h);
            assert(before.compartments@[h].infected.0 > 0);
            let m = choose|m: int| 0 <= m < origins@.len() && #[trigger] origins@[m].handle == h;
            assert(sure_origin(&before, origins@[m].handle as int));
        }
    }
    proof {
        if events@.len() == 0 {
            assert(events@ =~= Seq::<(FarmId, FarmId, usize)>::empty());
        }
    }
    let result = if events.len() > 0 {
        model.current_batch_id = model.current_batch_id + 1;
        Ok(
            Some(
                InfectionEvents {
                    scenario_tick: scenario_tick.current_time(),
                    batch_id: model.current_batch_id,
                    events_values: events,
                },
            ),
        )
    } else {
        Ok(None)
    };
    proof {
                assert(contact_draws_valid(
                    &before,
                    selected(&before, model.contact_rate, sd, before.len()),
                    cd,
                ));
                assert(spread_outcome(
                    &before,
                    selected(&before, model.contact_rate, sd, before.len()),
                    cd,
                    result,
                    store.compartments@,
                ));
    }
    result
}

/// A day without surveillance conserves a farm's animals: when the
/// recovery rate is at most 1, a farm whose compartments go from `before`
/// through within-herd dynamics to `after_within`, and then through
/// between-herd spread to `after_between`, holds as many animals
/// (`S + I + R`) at the end as at the start.
pub proof fn lemma_day_conserves_animals(
    before: DiseaseCompartments,
    herd: HerdSize,
    params: DiseaseParameters,
    after_within: DiseaseCompartments,
    after_between: DiseaseCompartments,
)
    requires
        fits_herd(before, herd),
        before.total() <= usize::MAX,
        params.recovery_rate.0 <= PARTS_PER_UNIT,
        within_herd_outcome(before, herd, params, after_within),
        only_infections(after_within, after_between),
    ensures
        after_between.total() == before.total(),
        after_within.total() == before.total(),
{
    lemma_within_herd_outcome_conserves(before, herd, params, after_within);
}

} // verus!
