//! Passive surveillance: estimates the prevalence of infected farms, both
//! the true one and the one that detection would observe. It acts on nothing.

use rand::rngs::StdRng;
use vstd::prelude::*;

use crate::farm_store::FarmStore;
use crate::parameters::{PARTS_PER_UNIT, Probability};
use crate::populations::TotalFarms;
use crate::regulator_active_surveillance::{DetectionRate, detected_with_draw, farm_detection};
use crate::random::draw_below;
use crate::sir_spread_model::DiseaseCompartments;
use crate::scenario_time::{ScenarioTime, Time};
use crate::compartment_counts::count_infected;

verus! {

/// State of passive surveillance: the detection rate and, once counted, the
/// total number of farms, which never changes during a run.
#[derive(Debug, Clone, Copy, PartialEq, Eq, Structural)]
pub struct PassiveRegulator {
    pub detection_rate: DetectionRate,
    pub total_farms: Option<TotalFarms>,
}

/// One passive-surveillance reading.
#[derive(Debug, Clone, Copy, PartialEq, Eq, Structural)]
pub struct PrevalenceReport {
    pub scenario_tick: Time,
    pub total_farms: usize,
    /// Farms with at least one infected animal.
    pub infected_farms: usize,
    /// Infected farms that detection observed.
    pub observed_farms: usize,
}

/// `count` farms out of `total`, as a fixed-point fraction rounded down; 0
/// when there is no farm.
pub open spec fn fraction(count: int, total: int) -> int {
    if total == 0 {
        0
    } else {
        count * PARTS_PER_UNIT / total
    }
}

/// Fraction of `total` that `count` makes, rounded down.
fn fraction_of(count: usize, total: usize) -> (r: Probability)
    requires
        count <= total,
    ensures
        r.0 == fraction(count as int, total as int),
        r.valid(),
{
    if total == 0 {
        return Probability(0);
    }
    proof {
        assert(count * PARTS_PER_UNIT <= total * PARTS_PER_UNIT) by (nonlinear_arith)
            requires
                count <= total,
        ;
        assert(total as int * PARTS_PER_UNIT as int <= u128::MAX) by (nonlinear_arith)
            requires
                0 <= total <= usize::MAX,
        ;
        assert((count * PARTS_PER_UNIT) / total as int <= (total * PARTS_PER_UNIT) / total as int)
            by (nonlinear_arith)
            requires
                count * PARTS_PER_UNIT <= total * PARTS_PER_UNIT,
                total > 0,
        ;
        assert((total * PARTS_PER_UNIT) / total as int == PARTS_PER_UNIT) by (nonlinear_arith)
            requires
                total > 0,
        ;
    }
    Probability(((count as u128 * PARTS_PER_UNIT as u128) / total as u128) as u64)
}

impl PrevalenceReport {
    /// A report is consistent when the observed infected farms are among the
    /// infected farms, which are among all farms.
    pub open spec fn consistent(&self) -> bool {
        self.observed_farms <= self.infected_farms <= self.total_farms
    }

    /// Fraction of farms that are infected.
    pub fn true_prevalence(&self) -> (r: Probability)
        requires
            self.consistent(),
        ensures
            r.0 == fraction(self.infected_farms as int, self.total_farms as int),
    {
        fraction_of(self.infected_farms, self.total_farms)
    }

    /// Fraction of farms that detection observed to be infected.
    pub fn observed_prevalence(&self) -> (r: Probability)
        requires
            self.consistent(),
        ensures
            r.0 == fraction(self.observed_farms as int, self.total_farms as int),
    {
        fraction_of(self.observed_farms, self.total_farms)
    }
}

/// The observed prevalence never exceeds the true one: observation only
/// keeps some of the truly infected farms.
pub proof fn lemma_observed_below_true(report: PrevalenceReport)
    requires
        report.consistent(),
    ensures
        fraction(report.observed_farms as int, report.total_farms as int) <= fraction(
            report.infected_farms as int,
            report.total_farms as int,
        ),
{
    let o = report.observed_farms as int;
    let i = report.infected_farms as int;
    let t = report.total_farms as int;
    if t > 0 {
        assert(o * PARTS_PER_UNIT <= i * PARTS_PER_UNIT) by (nonlinear_arith)
            requires
                o <= i,
        ;
        assert((o * PARTS_PER_UNIT) / t <= (i * PARTS_PER_UNIT) / t) by (nonlinear_arith)
            requires
                o * PARTS_PER_UNIT <= i * PARTS_PER_UNIT,
                t > 0,
        ;
    }
}

/// Among the first `k` farms, those infected whose detection draw falls
/// below their detection probability.
pub open spec fn observed_prefix(
    cs: Seq<DiseaseCompartments>,
    rate: DetectionRate,
    draws: Seq<int>,
    k: nat,
) -> int
    decreases k,
{
    if k == 0 {
        0
    } else {
        observed_prefix(cs, rate, draws, (k - 1) as nat) + if cs[k - 1].infected.0 > 0 && draws[k
            - 1] < farm_detection(rate, cs[k - 1].infected.0 as nat) {
            1int
        } else {
            0int
        }
    }
}

proof fn lemma_observed_prefix_push(
    cs: Seq<DiseaseCompartments>,
    rate: DetectionRate,
    draws: Seq<int>,
    x: int,
    k: nat,
)
    requires
        k <= draws.len(),
    ensures
        observed_prefix(cs, rate, draws.push(x), k) == observed_prefix(cs, rate, draws, k),
    decreases k,
{
    if k > 0 {
        lemma_observed_prefix_push(cs, rate, draws, x, (k - 1) as nat);
        assert(draws.push(x)[k - 1] == draws[k - 1]);
    }
}

/// Start passive surveillance; the total number of farms is counted at its
/// first reading.
pub fn setup_passive_surveillance(detection_rate: DetectionRate) -> (r: PassiveRegulator)
    ensures
        r.detection_rate == detection_rate,
        r.total_farms.is_none(),
{
    PassiveRegulator { detection_rate, total_farms: None }
}

/// One reading: in store order, each infected farm is observed with its
/// detection probability (a farm with no infected animal costs no draw);
/// then the truly infected farms are counted.
pub fn update_passive_surveillance(
    regulator: &mut PassiveRegulator,
    store: &FarmStore,
    rng: &mut StdRng,
    scenario_time: &ScenarioTime,
) -> (r: PrevalenceReport)
    requires
        store.wf(),
        old(regulator).detection_rate.0.valid(),
        scenario_time.readable(),
        match old(regulator).total_farms {
            Some(t) => t.0 == store.len(),
            None => true,
        },
    ensures
        final(regulator).detection_rate == old(regulator).detection_rate,
        final(regulator).total_farms == Some(TotalFarms(store.len() as usize)),
        r.scenario_tick == scenario_time.now(),
        r.total_farms == store.len(),
        r.infected_farms == count_infected(store.compartments@),
        r.observed_farms <= r.infected_farms,
        r.consistent(),
        exists|draws: Seq<int>|
            draws.len() == store.len() && (forall|i: int|
                0 <= i < draws.len() ==> 0 <= #[trigger] draws[i] < PARTS_PER_UNIT)
                && r.observed_farms == observed_prefix(
                store.compartments@,
                old(regulator).detection_rate,
                draws,
                store.len(),
            ),
{
    let total_farms = match regulator.total_farms {
        Some(t) => t.0,
        None => {
            let t = store.num_farms();
            regulator.total_farms = Some(TotalFarms(t));
            t
        },
    };
    let n = store.compartments.len();
    let mut observed: usize = 0;
    let mut infected: usize = 0;
    let mut k: usize = 0;
    let ghost mut draws: Seq<int> = Seq::empty();
    while k < n
        invariant
            store.wf(),
            n == store.len(),
            regulator.detection_rate.0.valid(),
            regulator.detection_rate == old(regulator).detection_rate,
            draws.len() == k,
            forall|i: int| 0 <= i < draws.len() ==> 0 <= #[trigger] draws[i] < PARTS_PER_UNIT,
            observed == observed_prefix(store.compartments@, regulator.detection_rate, draws, k as nat),
            k <= n,
            infected == count_infected(store.compartments@.subrange(0, k as int)),
            infected <= k,
            observed <= infected,
        decreases n - k,
    {
        let c = store.compartments[k];
        proof {
            crate::compartment_counts::lemma_count_infected_step(
                store.compartments@,
                k as int,
            );
        }
        proof {
            lemma_observed_prefix_push(
                store.compartments@,
                regulator.detection_rate,
                draws,
                0,
                k as nat,
            );
        }
        if c.infected.0 > 0 {
            let d = draw_below(rng, PARTS_PER_UNIT);
            proof {
                lemma_observed_prefix_push(
                    store.compartments@,
                    regulator.detection_rate,
                    draws,
                    d as int,
                    k as nat,
                );
                draws = draws.push(d as int);
            }
            if detected_with_draw(regulator.detection_rate, c.infected.0, d) {
                observed = observed + 1;
            }
            infected = infected + 1;
        } else {
            proof {
                draws = draws.push(0);
            }
        }
        k = k + 1;
    }
    proof {
        assert(store.compartments@.subrange(0, n as int) =~= store.compartments@);
    }
    PrevalenceReport {
        scenario_tick: scenario_time.current_time(),
        total_farms,
        infected_farms: infected,
        observed_farms: observed,
    }
}

} // verus!
