//! Within-herd disease dynamics: each farm's Susceptible / Infected /
//! Recovered counts advance one day, independently of every other farm.

use rand::rngs::StdRng;
use vstd::prelude::*;

use crate::errors::SimulationError;
use crate::farm_store::{FarmStore, fits_herd};
use crate::parameters::{PARTS_PER_UNIT, Rate};
use crate::populations::HerdSize;
use crate::random::{draw_below, lemma_round_stoch_at_most, round_stoch_spec, round_with_draw};

verus! {

/// Within-herd disease parameters.
#[derive(Debug, Clone, Copy, PartialEq, Eq, Structural)]
pub struct DiseaseParameters {
    /// New infections per susceptible-infected pair per day, scaled by herd size.
    pub infection_rate: Rate,
    /// Recoveries per infected animal per day.
    pub recovery_rate: Rate,
}

impl DiseaseParameters {
    pub fn new(infection_rate: Rate, recovery_rate: Rate) -> (r: DiseaseParameters)
        ensures
            r.infection_rate == infection_rate,
            r.recovery_rate == recovery_rate,
    {
        DiseaseParameters { infection_rate, recovery_rate }
    }
}

/// Number of susceptible animals.
#[derive(Debug, Clone, Copy, PartialEq, Eq, Structural)]
pub struct Susceptible(pub usize);

/// Number of infected animals.
#[derive(Debug, Clone, Copy, PartialEq, Eq, Structural)]
pub struct Infected(pub usize);

impl Infected {
    pub fn new(total_infected: usize) -> (r: Infected)
        ensures
            r.0 == total_infected,
    {
        Infected(total_infected)
    }
}

/// Number of recovered animals.
#[derive(Debug, Clone, Copy, PartialEq, Eq, Structural)]
pub struct Recovered(pub usize);

/// Disease state of one farm.
#[derive(Debug, Clone, Copy, PartialEq, Eq, Structural)]
pub struct DiseaseCompartments {
    pub susceptible: Susceptible,
    pub infected: Infected,
    pub recovered: Recovered,
}

impl DiseaseCompartments {
    /// A herd of `herd_size` animals, all susceptible.
    pub open spec fn initial(herd_size: usize) -> DiseaseCompartments {
        DiseaseCompartments {
            susceptible: Susceptible(herd_size),
            infected: Infected(0),
            recovered: Recovered(0),
        }
    }

    /// Total animals over the three compartments.
    pub open spec fn total(self) -> int {
        self.susceptible.0 + self.infected.0 + self.recovered.0
    }

    pub fn new(herd_size: usize) -> (r: DiseaseCompartments)
        ensures
            r == DiseaseCompartments::initial(herd_size),
    {
        DiseaseCompartments {
            susceptible: Susceptible(herd_size),
            infected: Infected(0),
            recovered: Recovered(0),
        }
    }
}

/// Numerator of the expected new infections,
/// `infection_rate * S * I / herd_size`, over `infection_denominator`.
pub open spec fn infection_numerator(c: DiseaseCompartments, params: DiseaseParameters) -> int {
    params.infection_rate.0 * (c.susceptible.0 * c.infected.0)
}

/// Denominator of the expected new infections.
pub open spec fn infection_denominator(herd: HerdSize) -> int {
    herd.0 * PARTS_PER_UNIT
}

/// Numerator of the expected recoveries, `recovery_rate * I`, over `PARTS_PER_UNIT`.
pub open spec fn recovery_numerator(c: DiseaseCompartments, params: DiseaseParameters) -> int {
    params.recovery_rate.0 * c.infected.0
}

/// Moves `new_recoveries` animals from infected to recovered, infected
/// stopping at zero, and then `new_infections` from susceptible to infected;
/// recovered stops at `usize::MAX`.
pub open spec fn apply_counts(
    c: DiseaseCompartments,
    new_infections: int,
    new_recoveries: int,
) -> DiseaseCompartments {
    let remaining = if new_recoveries > c.infected.0 {
        0
    } else {
        c.infected.0 - new_recoveries
    };
    let recovered = c.recovered.0 + new_recoveries;
    DiseaseCompartments {
        susceptible: Susceptible((c.susceptible.0 - new_infections) as usize),
        infected: Infected((remaining + new_infections) as usize),
        recovered: Recovered(
            if recovered > usize::MAX {
                usize::MAX
            } else {
                recovered as usize
            },
        ),
    }
}

/// New infections drawn with `infection_draw`.
pub open spec fn drawn_infections(
    c: DiseaseCompartments,
    herd: HerdSize,
    params: DiseaseParameters,
    infection_draw: int,
) -> int {
    round_stoch_spec(infection_numerator(c, params), infection_denominator(herd), infection_draw)
}

/// New recoveries drawn with `recovery_draw`.
pub open spec fn drawn_recoveries(
    c: DiseaseCompartments,
    params: DiseaseParameters,
    recovery_draw: int,
) -> int {
    round_stoch_spec(recovery_numerator(c, params), PARTS_PER_UNIT as int, recovery_draw)
}

/// `next` is what one day of within-herd dynamics can make of `c`: for some
/// pair of draws, the new infections do not exceed the susceptible animals
/// and the counts move accordingly.
pub open spec fn within_herd_outcome(
    c: DiseaseCompartments,
    herd: HerdSize,
    params: DiseaseParameters,
    next: DiseaseCompartments,
) -> bool {
    exists|infection_draw: int, recovery_draw: int|
        0 <= infection_draw < infection_denominator(herd) && 0 <= recovery_draw
            < PARTS_PER_UNIT && drawn_infections(c, herd, params, infection_draw)
            <= c.susceptible.0 && next == #[trigger] apply_counts(
            c,
            drawn_infections(c, herd, params, infection_draw),
            drawn_recoveries(c, params, recovery_draw),
        )
}

/// The expected new infections do not exceed the susceptible animals, so no
/// draw can give more new infections than there are susceptible animals.
pub open spec fn infections_fit(c: DiseaseCompartments, herd: HerdSize, params: DiseaseParameters) -> bool {
    infection_numerator(c, params) <= c.susceptible.0 * infection_denominator(herd)
}

/// Some draw gives more new infections than there are susceptible animals.
pub open spec fn can_overdraw(c: DiseaseCompartments, herd: HerdSize, params: DiseaseParameters) -> bool {
    exists|infection_draw: int|
        0 <= infection_draw < infection_denominator(herd) && #[trigger] drawn_infections(
            c,
            herd,
            params,
            infection_draw,
        ) > c.susceptible.0
}

/// An infection rate of at most 1 makes the infections fit any farm.
pub proof fn lemma_unit_rate_fits(c: DiseaseCompartments, herd: HerdSize, params: DiseaseParameters)
    requires
        fits_herd(c, herd),
        params.infection_rate.0 <= PARTS_PER_UNIT,
    ensures
        infections_fit(c, herd, params),
{
    let r = params.infection_rate.0 as int;
    let s = c.susceptible.0 as int;
    let i = c.infected.0 as int;
    let h = herd.0 as int;
    let u = PARTS_PER_UNIT as int;
    assert(r * (s * i) <= s * (h * u)) by (nonlinear_arith)
        requires
            0 <= r <= u,
            0 <= s,
            0 <= i <= h,
    ;
}

/// When infections fit, no draw overdraws the susceptible animals.
pub proof fn lemma_fitting_infections_never_overdraw(
    c: DiseaseCompartments,
    herd: HerdSize,
    params: DiseaseParameters,
    infection_draw: int,
)
    requires
        fits_herd(c, herd),
        infections_fit(c, herd, params),
        0 <= infection_draw,
    ensures
        0 <= drawn_infections(c, herd, params, infection_draw) <= c.susceptible.0,
{
    lemma_products_fit(c, herd, params);
    lemma_round_stoch_at_most(
        infection_numerator(c, params),
        infection_denominator(herd),
        c.susceptible.0 as int,
        infection_draw,
    );
}

/// Within-herd dynamics conserve a farm's animals when the recovery rate is
/// at most 1: any outcome of one day holds as many animals as before.
pub proof fn lemma_within_herd_outcome_conserves(
    c: DiseaseCompartments,
    herd: HerdSize,
    params: DiseaseParameters,
    next: DiseaseCompartments,
)
    requires
        fits_herd(c, herd),
        c.total() <= usize::MAX,
        params.recovery_rate.0 <= PARTS_PER_UNIT,
        within_herd_outcome(c, herd, params, next),
    ensures
        next.total() == c.total(),
{
    let (infection_draw, recovery_draw) = choose|infection_draw: int, recovery_draw: int|
        0 <= infection_draw < infection_denominator(herd) && 0 <= recovery_draw < PARTS_PER_UNIT
            && drawn_infections(c, herd, params, infection_draw) <= c.susceptible.0 && next
            == #[trigger] apply_counts(
            c,
            drawn_infections(c, herd, params, infection_draw),
            drawn_recoveries(c, params, recovery_draw),
        );
    lemma_products_fit(c, herd, params);
    let i = c.infected.0 as int;
    let q = params.recovery_rate.0 as int;
    assert(0 <= q * i <= i * PARTS_PER_UNIT) by (nonlinear_arith)
        requires
            0 <= i,
            0 <= q <= PARTS_PER_UNIT,
    ;
    lemma_round_stoch_at_most(q * i, PARTS_PER_UNIT as int, i, recovery_draw);
    assert(infection_numerator(c, params) <= infection_numerator(c, params) * infection_denominator(
        herd,
    )) by (nonlinear_arith)
        requires
            infection_numerator(c, params) >= 0,
            infection_denominator(herd) >= 1,
    ;
    lemma_round_stoch_at_most(
        infection_numerator(c, params),
        infection_denominator(herd),
        infection_numerator(c, params),
        infection_draw,
    );
    lemma_within_herd_conserves(
        c,
        drawn_infections(c, herd, params, infection_draw),
        drawn_recoveries(c, params, recovery_draw),
    );
}

proof fn lemma_products_fit(c: DiseaseCompartments, herd: HerdSize, params: DiseaseParameters)
    requires
        fits_herd(c, herd),
    ensures
        0 <= c.susceptible.0 * c.infected.0 <= u64::MAX,
        0 <= infection_numerator(c, params) <= u128::MAX,
        0 < infection_denominator(herd) <= u64::MAX,
        0 <= recovery_numerator(c, params) <= u128::MAX,
{
    let s = c.susceptible.0 as int;
    let i = c.infected.0 as int;
    let r = params.infection_rate.0 as int;
    assert(0 <= s * i <= u64::MAX) by (nonlinear_arith)
        requires
            0 <= s <= 4_294_967_295,
            0 <= i <= 4_294_967_295,
    ;
    assert(0 <= r * (s * i) <= u128::MAX) by (nonlinear_arith)
        requires
            0 <= s * i <= u64::MAX,
            0 <= r <= u64::MAX,
    ;
    assert(0 < herd.0 * PARTS_PER_UNIT <= u64::MAX) by (nonlinear_arith)
        requires
            1 <= herd.0 <= 4_294_967_295,
    ;
    assert(0 <= params.recovery_rate.0 * i <= u128::MAX) by (nonlinear_arith)
        requires
            0 <= i <= 4_294_967_295,
            0 <= params.recovery_rate.0 <= u64::MAX,
    ;
}

/// Move the drawn counts between compartments.
pub fn apply_within_herd(c: DiseaseCompartments, herd: HerdSize, new_infections: usize, new_recoveries: u128) -> (r: DiseaseCompartments)
    requires
        fits_herd(c, herd),
        new_infections <= c.susceptible.0,
    ensures
        r == apply_counts(c, new_infections as int, new_recoveries as int),
        fits_herd(r, herd),
{
    let s = c.susceptible.0;
    let i = c.infected.0;
    let rec = c.recovered.0;
    let remaining: usize = if new_recoveries > i as u128 {
        0
    } else {
        i - new_recoveries as usize
    };
    let infected: usize = remaining + new_infections;
    let recovered: usize = if new_recoveries > (usize::MAX - rec) as u128 {
        usize::MAX
    } else {
        rec + new_recoveries as usize
    };
    DiseaseCompartments {
        susceptible: Susceptible(s - new_infections),
        infected: Infected(infected),
        recovered: Recovered(recovered),
    }
}

/// One day of within-herd dynamics for one farm, given its two draws: the
/// expected new infections `infection_rate * S * I / herd_size` and the
/// expected recoveries `recovery_rate * I` are rounded stochastically with
/// them. Returns `None` when the new infections exceed the susceptible animals.
pub fn advance_farm(
    c: DiseaseCompartments,
    herd: HerdSize,
    params: DiseaseParameters,
    infection_draw: u64,
    recovery_draw: u64,
) -> (r: Option<DiseaseCompartments>)
    requires
        fits_herd(c, herd),
    ensures
        drawn_infections(c, herd, params, infection_draw as int) > c.susceptible.0 <==> r.is_none(),
        r.is_some() ==> r.unwrap() == apply_counts(
            c,
            drawn_infections(c, herd, params, infection_draw as int),
            drawn_recoveries(c, params, recovery_draw as int),
        ),
        r.is_some() ==> fits_herd(r.unwrap(), herd),
{
    proof {
        lemma_products_fit(c, herd, params);
    }
    let s = c.susceptible.0;
    let i = c.infected.0;
    let pairs = s as u64 * i as u64;
    let numerator = params.infection_rate.0 as u128 * pairs as u128;
    let denominator = herd.0 as u64 * PARTS_PER_UNIT;
    let new_infections = round_with_draw(numerator, denominator, infection_draw);
    if new_infections > s as u128 {
        return None;
    }
    let recovery_numerator = params.recovery_rate.0 as u128 * i as u128;
    let new_recoveries = round_with_draw(recovery_numerator, PARTS_PER_UNIT, recovery_draw);
    Some(apply_within_herd(c, herd, new_infections as usize, new_recoveries))
}

/// Advance every farm's compartments by one day, in store order, drawing for
/// each farm first its new infections and then its recoveries.
///
/// Fails when a farm's drawn new infections exceed its susceptible animals;
/// farms before it have then already advanced.
pub fn update_disease_compartments(
    store: &mut FarmStore,
    params: &DiseaseParameters,
    rng: &mut StdRng,
) -> (r: Result<(), SimulationError>)
    requires
        old(store).wf(),
    ensures
        final(store).wf(),
        final(store).same_topology(old(store)),
        r.is_ok() ==> forall|i: int|
            0 <= i < old(store).len() ==> within_herd_outcome(
                old(store).compartments@[i],
                old(store).herd_sizes@[i],
                *params,
                #[trigger] final(store).compartments@[i],
            ),
        forall|i: int|
            0 <= i < old(store).len() ==> within_herd_outcome(
                old(store).compartments@[i],
                old(store).herd_sizes@[i],
                *params,
                #[trigger] final(store).compartments@[i],
            ) || final(store).compartments@[i] == old(store).compartments@[i],
        (forall|i: int|
            0 <= i < old(store).len() ==> #[trigger] infections_fit(
                old(store).compartments@[i],
                old(store).herd_sizes@[i],
                *params,
            )) ==> r.is_ok(),
        params.recovery_rate.0 <= PARTS_PER_UNIT ==> forall|i: int|
            0 <= i < old(store).len() && old(store).compartments@[i].total() <= usize::MAX
                ==> (#[trigger] final(store).compartments@[i]).total()
                == old(store).compartments@[i].total(),
        match r {
            Err(SimulationError::InfectionsExceedSusceptible(id)) => exists|i: int|
                0 <= i < old(store).len() && #[trigger] old(store).farm_ids@[i] == id
                    && can_overdraw(
                    old(store).compartments@[i],
                    old(store).herd_sizes@[i],
                    *params,
                ),
            Err(_) => false,
            Ok(_) => true,
        },
{
    let ghost before = *store;
    let n = store.compartments.len();
    let mut k: usize = 0;
    while k < n
        invariant
            before == *old(store),
            store.wf(),
            store.same_topology(&before),
            n == before.len(),
            k <= n,
            forall|i: int|
                0 <= i < k ==> within_herd_outcome(
                    before.compartments@[i],
                    before.herd_sizes@[i],
                    *params,
                    #[trigger] store.compartments@[i],
                ),
            forall|i: int|
                k <= i < n ==> #[trigger] store.compartments@[i] == before.compartments@[i],
            params.recovery_rate.0 <= PARTS_PER_UNIT ==> forall|i: int|
                0 <= i < n && before.compartments@[i].total() <= usize::MAX
                    ==> (#[trigger] store.compartments@[i]).total()
                    == before.compartments@[i].total(),
        decreases n - k,
    {
        let c = store.compartments[k];
        let herd = store.herd_sizes[k];
        proof {
            lemma_products_fit(c, herd, *params);
        }
        let infection_draw = draw_below(rng, herd.0 as u64 * PARTS_PER_UNIT);
        let recovery_draw = draw_below(rng, PARTS_PER_UNIT);
        match advance_farm(c, herd, *params, infection_draw, recovery_draw) {
            Some(next) => {
                proof {
                    let inf = drawn_infections(c, herd, *params, infection_draw as int);
                    let rec = drawn_recoveries(c, *params, recovery_draw as int);
                    assert(next == apply_counts(c, inf, rec));
                    assert(within_herd_outcome(c, herd, *params, next));
                    assert(before.compartments@[k as int] == c);
                    assert(fits_herd(c, herd));
                    if params.recovery_rate.0 <= PARTS_PER_UNIT && c.total() <= usize::MAX {
                        lemma_within_herd_outcome_conserves(c, herd, *params, next);
                    }
                }
                store.compartments.set(k, next);
            },
            None => {
                let id = store.farm_ids[k];
                proof {
                    assert(before.farm_ids@[k as int] == id);
                    assert(before.compartments@[k as int] == c);
                    assert(drawn_infections(c, herd, *params, infection_draw as int)
                        > c.susceptible.0);
                    assert(can_overdraw(c, herd, *params));
                    if forall|i: int|
                        0 <= i < n ==> #[trigger] infections_fit(
                            before.compartments@[i],
                            before.herd_sizes@[i],
                            *params,
                        ) {
                        assert(infections_fit(c, herd, *params));
                        lemma_fitting_infections_never_overdraw(c, herd, *params, infection_draw as int);
                    }
                }
                return Err(SimulationError::InfectionsExceedSusceptible(id));
            },
        }
        k = k + 1;
    }
    Ok(())
}

/// Seeding moves one susceptible animal of farm `i` to infected.
pub open spec fn seeded(c: DiseaseCompartments) -> DiseaseCompartments {
    DiseaseCompartments {
        susceptible: Susceptible((c.susceptible.0 - 1) as usize),
        infected: Infected((c.infected.0 + 1) as usize),
        recovered: c.recovered,
    }
}

/// Infect one susceptible animal of the farm with handle `k`; fails, leaving
/// the store unchanged, when that farm has no susceptible animal.
pub fn seed_farm(store: &mut FarmStore, k: usize) -> (r: Result<(), SimulationError>)
    requires
        old(store).wf(),
        k < old(store).len(),
    ensures
        final(store).wf(),
        final(store).same_topology(old(store)),
        old(store).compartments@[k as int].susceptible.0 >= 1 ==> r.is_ok()
            && final(store).compartments@ == old(store).compartments@.update(
            k as int,
            seeded(old(store).compartments@[k as int]),
        ),
        old(store).compartments@[k as int].susceptible.0 == 0 ==> r == Err::<(), SimulationError>(
            SimulationError::NoSusceptible(old(store).farm_ids@[k as int]),
        ) && final(store).compartments@ == old(store).compartments@,
{
    let c = store.compartments[k];
    if c.susceptible.0 == 0 {
        return Err(SimulationError::NoSusceptible(store.farm_ids[k]));
    }
    let next = DiseaseCompartments {
        susceptible: Susceptible(c.susceptible.0 - 1),
        infected: Infected(c.infected.0 + 1),
        recovered: c.recovered,
    };
    store.compartments.set(k, next);
    Ok(())
}

/// Infect one susceptible animal of one farm, chosen uniformly at random.
///
/// Fails when there is no farm, or when the chosen farm has no susceptible
/// animal; the store is then unchanged.
pub fn seed_infection_random(store: &mut FarmStore, rng: &mut StdRng) -> (r: Result<
    (),
    SimulationError,
>)
    requires
        old(store).wf(),
    ensures
        final(store).wf(),
        final(store).same_topology(old(store)),
        old(store).len() == 0 <==> r == Err::<(), SimulationError>(SimulationError::NoFarms),
        old(store).len() > 0 && (forall|i: int|
            0 <= i < old(store).len() ==> (#[trigger] old(store).compartments@[i]).susceptible.0
                >= 1) ==> r.is_ok(),
        r.is_ok() ==> exists|i: int|
            0 <= i < old(store).len() && old(store).compartments@[i].susceptible.0 >= 1
                && final(store).compartments@ == old(store).compartments@.update(
                i,
                seeded(#[trigger] old(store).compartments@[i]),
            ),
        match r {
            Err(SimulationError::NoSusceptible(id)) => exists|i: int|
                0 <= i < old(store).len() && #[trigger] old(store).farm_ids@[i] == id
                    && old(store).compartments@[i].susceptible.0 == 0,
            Err(SimulationError::NoFarms) => true,
            Err(_) => false,
            Ok(_) => true,
        },
        r.is_err() ==> final(store).compartments@ == old(store).compartments@,
{
    let n = store.compartments.len();
    if n == 0 {
        return Err(SimulationError::NoFarms);
    }
    let k = draw_below(rng, n as u64) as usize;
    proof {
        assert(old(store).compartments@[k as int] == old(store).compartments@[k as int]);
    }
    seed_farm(store, k)
}

/// Infect one susceptible animal on every farm.
///
/// Fails when there is no farm, or when some farm has no susceptible animal;
/// the store is then unchanged.
pub fn seed_infected_everywhere(store: &mut FarmStore) -> (r: Result<(), SimulationError>)
    requires
        old(store).wf(),
    ensures
        final(store).wf(),
        final(store).same_topology(old(store)),
        old(store).len() == 0 <==> r == Err::<(), SimulationError>(SimulationError::NoFarms),
        r.is_ok() <==> (old(store).len() > 0 && forall|i: int|
            0 <= i < old(store).len() ==> (#[trigger] old(store).compartments@[i]).susceptible.0
                >= 1),
        r.is_ok() ==> final(store).compartments@.len() == old(store).len() && forall|i: int|
            0 <= i < old(store).len() ==> #[trigger] final(store).compartments@[i] == seeded(
                old(store).compartments@[i],
            ),
        match r {
            Err(SimulationError::NoSusceptible(id)) => exists|i: int|
                0 <= i < old(store).len() && #[trigger] old(store).farm_ids@[i] == id
                    && old(store).compartments@[i].susceptible.0 == 0,
            Err(SimulationError::NoFarms) => true,
            Err(_) => false,
            Ok(_) => true,
        },
        r.is_err() ==> final(store).compartments@ == old(store).compartments@,
{
    let n = store.compartments.len();
    if n == 0 {
        return Err(SimulationError::NoFarms);
    }
    let mut k: usize = 0;
    while k < n
        invariant
            store.wf(),
            n == store.len(),
            k <= n,
            forall|i: int| 0 <= i < k ==> (#[trigger] store.compartments@[i]).susceptible.0 >= 1,
        decreases n - k,
    {
        if store.compartments[k].susceptible.0 == 0 {
            return Err(SimulationError::NoSusceptible(store.farm_ids[k]));
        }
        k = k + 1;
    }
    let ghost before = *store;
    let mut k: usize = 0;
    while k < n
        invariant
            store.wf(),
            store.same_topology(&before),
            n == before.len(),
            k <= n,
            forall|i: int| 0 <= i < n ==> (#[trigger] before.compartments@[i]).susceptible.0 >= 1,
            forall|i: int|
                0 <= i < k ==> #[trigger] store.compartments@[i] == seeded(
                    before.compartments@[i],
                ),
            forall|i: int| k <= i < n ==> #[trigger] store.compartments@[i] == before.compartments@[i],
        decreases n - k,
    {
        let c = store.compartments[k];
        let next = DiseaseCompartments {
            susceptible: Susceptible(c.susceptible.0 - 1),
            infected: Infected(c.infected.0 + 1),
            recovered: c.recovered,
        };
        store.compartments.set(k, next);
        k = k + 1;
    }
    Ok(())
}

/// Within-herd dynamics conserve a farm's animals: when the drawn recoveries
/// do not exceed the infected animals, the day moves animals between
/// compartments and `S + I + R` is the same before and after.
pub proof fn lemma_within_herd_conserves(
    c: DiseaseCompartments,
    new_infections: int,
    new_recoveries: int,
)
    requires
        0 <= new_infections <= c.susceptible.0,
        0 <= new_recoveries <= c.infected.0,
        c.total() <= usize::MAX,
    ensures
        apply_counts(c, new_infections, new_recoveries).total() == c.total(),
        apply_counts(c, new_infections, new_recoveries).susceptible.0 == c.susceptible.0
            - new_infections,
{
}

} // verus!
