//! Exogenous infection pressure: infections that come from outside the
//! modelled farms, at a fixed rate per susceptible animal.

use vstd::prelude::*;

use crate::farm_store::{FarmStore, fits_herd};
use crate::parameters::{PARTS_PER_UNIT, Rate};
use crate::populations::HerdSize;
use crate::sir_spread_model::{DiseaseCompartments, Infected, Susceptible};

verus! {

/// Daily rate at which each susceptible animal is infected from outside.
#[derive(Debug, Clone, Copy, PartialEq, Eq, Structural)]
pub struct ExogenousInfectionRate(pub Rate);

/// Expected exogenous infections, `S * rate`, rounded to the nearest
/// integer (halves up).
pub open spec fn exogenous_infections(c: DiseaseCompartments, rate: ExogenousInfectionRate) -> int {
    (c.susceptible.0 * rate.0.0 + PARTS_PER_UNIT / 2) / (PARTS_PER_UNIT as int)
}

/// When the farm has more susceptible animals than the exogenous
/// infections, those become infected; otherwise nothing happens.
pub open spec fn exogenous_step(c: DiseaseCompartments, rate: ExogenousInfectionRate) -> DiseaseCompartments {
    let d = exogenous_infections(c, rate);
    if c.susceptible.0 > d {
        DiseaseCompartments {
            susceptible: Susceptible((c.susceptible.0 - d) as usize),
            infected: Infected((c.infected.0 + d) as usize),
            recovered: c.recovered,
        }
    } else {
        c
    }
}

/// Exogenous infections of one farm, outside the within-herd model.
pub fn update_exogenous_infection_rate_outside_of_disease_model(
    c: DiseaseCompartments,
    herd: HerdSize,
    rate: ExogenousInfectionRate,
) -> (r: DiseaseCompartments)
    requires
        fits_herd(c, herd),
    ensures
        r == exogenous_step(c, rate),
        fits_herd(r, herd),
{
    let s = c.susceptible.0;
    proof {
        assert(s as int * rate.0.0 as int <= u128::MAX - PARTS_PER_UNIT) by (nonlinear_arith)
            requires
                0 <= s <= 4_294_967_295,
                0 <= rate.0.0 <= u64::MAX,
        ;
    }
    let d = (s as u128 * rate.0.0 as u128 + (PARTS_PER_UNIT / 2) as u128) / PARTS_PER_UNIT as u128;
    if (s as u128) > d {
        let d = d as usize;
        DiseaseCompartments {
            susceptible: Susceptible(s - d),
            infected: Infected(c.infected.0 + d),
            recovered: c.recovered,
        }
    } else {
        c
    }
}

/// Exogenous infections of every farm.
pub fn update_exogenous_infection_rate(store: &mut FarmStore, rate: ExogenousInfectionRate)
    requires
        old(store).wf(),
    ensures
        final(store).wf(),
        final(store).same_topology(old(store)),
        forall|i: int|
            0 <= i < old(store).len() ==> #[trigger] final(store).compartments@[i] == exogenous_step(
                old(store).compartments@[i],
                rate,
            ),
{
    let ghost before = *store;
    let n = store.compartments.len();
    let mut k: usize = 0;
    while k < n
        invariant
            before == *old(store),
            store.wf(),
            store.same_topology(&before),
            n == before.len(),
            k <= n,
            forall|i: int|
                0 <= i < k ==> #[trigger] store.compartments@[i] == exogenous_step(
                    before.compartments@[i],
                    rate,
                ),
            forall|i: int| k <= i < n ==> #[trigger] store.compartments@[i] == before.compartments@[i],
        decreases n - k,
    {
        let c = store.compartments[k];
        let herd = store.herd_sizes[k];
        let next = update_exogenous_infection_rate_outside_of_disease_model(c, herd, rate);
        store.compartments.set(k, next);
        k = k + 1;
    }
}

} // verus!
