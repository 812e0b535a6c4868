//! Counting farms by disease state.

use vstd::prelude::*;

use crate::sir_spread_model::DiseaseCompartments;

verus! {

/// Number of farms with at least one infected animal.
pub open spec fn count_infected(cs: Seq<DiseaseCompartments>) -> int
    decreases cs.len(),
{
    if cs.len() == 0 {
        0
    } else {
        count_infected(cs.drop_last()) + if cs.last().infected.0 > 0 {
            1int
        } else {
            0int
        }
    }
}

/// Counting one more farm of a prefix.
pub proof fn lemma_count_infected_step(cs: Seq<DiseaseCompartments>, k: int)
    requires
        0 <= k < cs.len(),
    ensures
        count_infected(cs.subrange(0, k + 1)) == count_infected(cs.subrange(0, k)) + if cs[k].infected.0
            > 0 {
            1int
        } else {
            0int
        },
{
    assert(cs.subrange(0, k + 1).drop_last() =~= cs.subrange(0, k));
}

/// Some farm is infected exactly when the count of infected farms is positive.
pub proof fn lemma_count_infected_positive(cs: Seq<DiseaseCompartments>)
    ensures
        count_infected(cs) > 0 <==> exists|i: int| 0 <= i < cs.len() && (#[trigger] cs[i]).infected.0 > 0,
        count_infected(cs) >= 0,
    decreases cs.len(),
{
    if cs.len() > 0 {
        let init = cs.drop_last();
        lemma_count_infected_positive(init);
        if exists|i: int| 0 <= i < init.len() && (#[trigger] init[i]).infected.0 > 0 {
            let i = choose|i: int| 0 <= i < init.len() && (#[trigger] init[i]).infected.0 > 0;
            assert(cs[i] == init[i]);
        }
        if exists|i: int| 0 <= i < cs.len() && (#[trigger] cs[i]).infected.0 > 0 {
            let i = choose|i: int| 0 <= i < cs.len() && (#[trigger] cs[i]).infected.0 > 0;
            if i < cs.len() - 1 {
                assert(init[i] == cs[i]);
            }
        }
    }
}

} // verus!
