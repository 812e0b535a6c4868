//! Active surveillance: every day, each infected farm may be detected; a
//! detected farm either loses all its infected animals (a fair coin) or keeps
//! a proportion of them, rounded stochastically.

use rand::rngs::StdRng;
use vstd::prelude::*;

use crate::farm_store::{FarmStore, fits_herd};
use crate::parameters::{PARTS_PER_UNIT, Probability, none_happens_repeated};
use crate::random::{draw_below, round_stoch_spec, round_with_draw};
use crate::sir_spread_model::{DiseaseCompartments, Infected, Recovered};

verus! {

/// Probability that one infected animal is detected on a given day.
#[derive(Debug, Clone, Copy, PartialEq, Eq, Structural)]
pub struct DetectionRate(pub Probability);

impl DetectionRate {
    pub fn new(per_animal: Probability) -> (r: DetectionRate)
        ensures
            r.0 == per_animal,
    {
        DetectionRate(per_animal)
    }
}

/// Proportion of infected animals that remain when a detected outbreak is
/// not wiped out.
#[derive(Debug, Clone, Copy, PartialEq, Eq, Structural)]
pub struct RemainingProportion(pub Probability);

impl RemainingProportion {
    pub fn new(proportion: Probability) -> (r: RemainingProportion)
        ensures
            r.0 == proportion,
    {
        RemainingProportion(proportion)
    }
}

/// What becomes of the infected animals that surveillance removes.
#[derive(Debug, Clone, Copy, PartialEq, Eq, Structural)]
pub enum CullingPolicy {
    /// They leave the farm.
    Vanish,
    /// They are counted as recovered.
    CreditRecovered,
}

impl Default for CullingPolicy {
    /// Removed animals leave the farm, so `S + I + R` may drop below the herd size.
    fn default() -> (r: CullingPolicy)
        ensures
            r == CullingPolicy::Vanish,
    {
        CullingPolicy::Vanish
    }
}

/// Parameters of active surveillance.
#[derive(Debug, Clone, Copy, PartialEq, Eq, Structural)]
pub struct ActiveSurveillance {
    pub detection_rate: DetectionRate,
    pub remaining_proportion: RemainingProportion,
    pub culling: CullingPolicy,
}

impl ActiveSurveillance {
    pub open spec fn valid(&self) -> bool {
        self.detection_rate.0.valid() && self.remaining_proportion.0.valid()
    }

    pub fn new(
        detection_rate: DetectionRate,
        remaining_proportion: RemainingProportion,
        culling: CullingPolicy,
    ) -> (r: ActiveSurveillance)
        ensures
            r.detection_rate == detection_rate,
            r.remaining_proportion == remaining_proportion,
            r.culling == culling,
    {
        ActiveSurveillance { detection_rate, remaining_proportion, culling }
    }
}

/// Probability that a farm with `infected` infected animals is detected:
/// that at least one of them is, `1 - (1 - p)^infected`.
pub open spec fn farm_detection(rate: DetectionRate, infected: nat) -> int {
    PARTS_PER_UNIT - none_happens_repeated(rate.0, infected)
}

/// Whether a farm with `infected` infected animals is detected, from a draw
/// below `PARTS_PER_UNIT`.
pub fn detected_with_draw(rate: DetectionRate, infected: usize, draw: u64) -> (r: bool)
    requires
        rate.0.valid(),
    ensures
        r == (draw < farm_detection(rate, infected as nat)),
{
    let p = rate.0.compound_repeated(infected as u64);
    draw < p.0
}

/// The farm keeps `remaining` infected animals; the others are removed, and
/// counted as recovered under `CreditRecovered`.
pub open spec fn culled(c: DiseaseCompartments, remaining: int, policy: CullingPolicy) -> DiseaseCompartments {
    let credited = c.recovered.0 + (c.infected.0 - remaining);
    DiseaseCompartments {
        susceptible: c.susceptible,
        infected: Infected(remaining as usize),
        recovered: match policy {
            CullingPolicy::Vanish => c.recovered,
            CullingPolicy::CreditRecovered => Recovered(
                if credited > usize::MAX {
                    usize::MAX
                } else {
                    credited as usize
                },
            ),
        },
    }
}

/// Infected animals that remain after a detection that did not wipe out
/// the outbreak, with `draw` below `PARTS_PER_UNIT`.
pub open spec fn remaining_after(c: DiseaseCompartments, proportion: RemainingProportion, draw: int) -> int {
    round_stoch_spec(c.infected.0 * proportion.0.0, PARTS_PER_UNIT as int, draw)
}

/// What surveillance does to a farm, given whether it was detected, whether
/// the coin wiped the outbreak out, and the draw for rounding what remains.
pub open spec fn regulated(
    c: DiseaseCompartments,
    reg: ActiveSurveillance,
    detected: bool,
    eliminate: bool,
    draw: int,
) -> DiseaseCompartments {
    if !detected {
        c
    } else if eliminate {
        culled(c, 0, reg.culling)
    } else {
        culled(c, remaining_after(c, reg.remaining_proportion, draw), reg.culling)
    }
}

/// What surveillance makes of `c` from its three draws: the detection draw
/// `d0` below `PARTS_PER_UNIT` (an uninfected farm is never detected), the
/// coin `d1` below 2 (0 wipes the outbreak out), and the rounding draw `d2`.
pub open spec fn regulated_with_draws(
    c: DiseaseCompartments,
    reg: ActiveSurveillance,
    d0: int,
    d1: int,
    d2: int,
) -> DiseaseCompartments {
    regulated(
        c,
        reg,
        c.infected.0 > 0 && d0 < farm_detection(reg.detection_rate, c.infected.0 as nat),
        d1 == 0,
        d2,
    )
}

/// `next` is what one day of active surveillance makes of `c` for some draws.
pub open spec fn active_outcome(c: DiseaseCompartments, reg: ActiveSurveillance, next: DiseaseCompartments) -> bool {
    exists|d0: int, d1: int, d2: int|
        0 <= d0 < PARTS_PER_UNIT && 0 <= d1 < 2 && 0 <= d2 < PARTS_PER_UNIT && next
            == #[trigger] regulated_with_draws(c, reg, d0, d1, d2)
}

pub(crate) proof fn lemma_remaining_bounded(i: int, q: int, draw: int)
    requires
        0 <= i,
        0 <= q <= PARTS_PER_UNIT,
        0 <= draw,
    ensures
        0 <= round_stoch_spec(i * q, PARTS_PER_UNIT as int, draw) <= i,
        i * q <= i * PARTS_PER_UNIT,
{
    let u = PARTS_PER_UNIT as int;
    assert(0 <= i * q <= i * u) by (nonlinear_arith)
        requires
            0 <= i,
            0 <= q <= u,
    ;
    let fl = (i * q) / u;
    let rm = (i * q) % u;
    assert(fl * u + rm == i * q && 0 <= rm < u) by (nonlinear_arith)
        requires
            u > 0,
            fl == (i * q) / u,
            rm == (i * q) % u,
    ;
    assert(0 <= fl) by (nonlinear_arith)
        requires
            fl * u + rm == i * q,
            0 <= rm < u,
            0 <= i * q,
            u > 0,
    ;
    if rm > 0 {
        assert(fl < i) by (nonlinear_arith)
            requires
                fl * u + rm == i * q,
                i * q <= i * u,
                rm > 0,
                u > 0,
        ;
    } else {
        assert(fl <= i) by (nonlinear_arith)
            requires
                fl * u + rm == i * q,
                i * q <= i * u,
                rm >= 0,
                u > 0,
        ;
    }
}

/// Surveillance of one farm, given the outcomes of its draws; exactly
/// `regulated(c, reg, detected, eliminate, draw)`.
pub fn regulate_farm(
    c: DiseaseCompartments,
    reg: &ActiveSurveillance,
    detected: bool,
    eliminate: bool,
    draw: u64,
) -> (r: DiseaseCompartments)
    requires
        reg.valid(),
    ensures
        r == regulated(c, *reg, detected, eliminate, draw as int),
        r.susceptible == c.susceptible,
        r.infected.0 <= c.infected.0,
{
    if !detected {
        return c;
    }
    let i = c.infected.0;
    let remaining: usize = if eliminate {
        0
    } else {
        let q = reg.remaining_proportion.0.0;
        proof {
            lemma_remaining_bounded(i as int, q as int, draw as int);
            assert(i * q <= i * PARTS_PER_UNIT);
            assert(i as int * PARTS_PER_UNIT as int <= u128::MAX) by (nonlinear_arith)
                requires
                    0 <= i <= usize::MAX,
            ;
        }
        let kept = round_with_draw(i as u128 * q as u128, PARTS_PER_UNIT, draw);
        kept as usize
    };
    let removed = i - remaining;
    let recovered = match reg.culling {
        CullingPolicy::Vanish => c.recovered,
        CullingPolicy::CreditRecovered => Recovered(
            if removed > usize::MAX - c.recovered.0 {
                usize::MAX
            } else {
                c.recovered.0 + removed
            },
        ),
    };
    DiseaseCompartments { susceptible: c.susceptible, infected: Infected(remaining), recovered }
}

/// One day of active surveillance, farm by farm in store order.
///
/// A farm with no infected animal is left alone and costs no draw. An
/// infected farm is detected with probability `1 - (1 - p)^I`; a detected
/// farm then loses all its infected animals with probability one half, and
/// otherwise keeps `I * remaining_proportion` of them, rounded stochastically.
pub fn update_active_surveillance(reg: &ActiveSurveillance, store: &mut FarmStore, rng: &mut StdRng)
    requires
        old(store).wf(),
        reg.valid(),
    ensures
        final(store).wf(),
        final(store).same_topology(old(store)),
        forall|i: int|
            0 <= i < old(store).len() ==> active_outcome(
                old(store).compartments@[i],
                *reg,
                #[trigger] final(store).compartments@[i],
            ),
        forall|i: int|
            0 <= i < old(store).len() && old(store).compartments@[i].infected.0 == 0
                ==> #[trigger] final(store).compartments@[i] == old(store).compartments@[i],
        (forall|i: int|
            0 <= i < old(store).len() ==> (#[trigger] old(store).compartments@[i]).infected.0 == 0)
            ==> *final(rng) == *old(rng),
{
    let ghost before = *store;
    let ghost rng_before = *rng;
    let n = store.compartments.len();
    let mut k: usize = 0;
    while k < n
        invariant
            before == *old(store),
            rng_before == *old(rng),
            before.wf(),
            reg.valid(),
            store.wf(),
            store.same_topology(&before),
            n == before.len(),
            k <= n,
            forall|i: int|
                0 <= i < k ==> active_outcome(
                    before.compartments@[i],
                    *reg,
                    #[trigger] store.compartments@[i],
                ),
            forall|i: int|
                0 <= i < k && before.compartments@[i].infected.0 == 0 ==> #[trigger] store.compartments@[i]
                    == before.compartments@[i],
            forall|i: int| k <= i < n ==> #[trigger] store.compartments@[i] == before.compartments@[i],
            (forall|i: int| 0 <= i < k ==> (#[trigger] before.compartments@[i]).infected.0 == 0)
                ==> *rng == rng_before,
        decreases n - k,
    {
        let c = store.compartments[k];
        if c.infected.0 > 0 {
            let d0 = draw_below(rng, PARTS_PER_UNIT);
            let detected = detected_with_draw(reg.detection_rate, c.infected.0, d0);
            let mut d1: u64 = 0;
            let mut draw: u64 = 0;
            if detected {
                d1 = draw_below(rng, 2);
                if d1 != 0 {
                    draw = draw_below(rng, PARTS_PER_UNIT);
                }
            }
            let eliminate = d1 == 0;
            let next = regulate_farm(c, reg, detected, eliminate, draw);
            proof {
                assert(regulated(c, *reg, detected, eliminate, draw as int) == next);
                assert(regulated_with_draws(c, *reg, d0 as int, d1 as int, draw as int) == next);
                assert(fits_herd(next, store.herd_sizes@[k as int]));
            }
            store.compartments.set(k, next);
        } else {
            proof {
                assert(regulated(c, *reg, false, false, 0) == c);
                assert(regulated_with_draws(c, *reg, 0, 0, 0) == c);
            }
        }
        k = k + 1;
    }
}

} // verus!
