//! Random decisions of the simulation.
//!
//! Every decision is made from one uniform integer draw of the scenario's
//! generator. For each kind of decision there is a function that takes the
//! draw as an argument and states exactly what is decided from it, and one
//! that makes the draw.

use rand::rngs::StdRng;
use vstd::prelude::*;

use crate::parameters::{PARTS_PER_UNIT, Probability};

verus! {

#[verifier::external_type_specification]
#[verifier::external_body]
pub struct ExStdRng(rand::rngs::StdRng);

/// Relies on `rand::Rng::gen_range` over `0..bound`: a uniform integer below
/// `bound`; it panics on an empty range, which `requires` rules out.
#[verifier::external_body]
pub(crate) fn draw_below(rng: &mut StdRng, bound: u64) -> (r: u64)
    requires
        bound > 0,
    ensures
        r < bound,
{
    rand::Rng::gen_range(rng, 0..bound)
}

/// Relies on `rand::SeedableRng::seed_from_u64`: the generator that a seed gives.
#[verifier::external_body]
pub(crate) fn seeded_rng(seed: u64) -> StdRng {
    <StdRng as rand::SeedableRng>::seed_from_u64(seed)
}

/// Stochastic rounding of `numerator / denominator`, given a draw below
/// `denominator`: round up when the draw falls below the remainder.
pub open spec fn round_stoch_spec(numerator: int, denominator: int, draw: int) -> int {
    numerator / denominator + if draw < numerator % denominator {
        1int
    } else {
        0int
    }
}

/// Outcome of a Bernoulli trial with success probability `p`, from a draw
/// below `PARTS_PER_UNIT`.
pub fn bernoulli_outcome(p: Probability, draw: u64) -> (r: bool)
    ensures
        r == (draw < p.0),
{
    draw < p.0
}

/// A Bernoulli trial with success probability `p`.
pub fn bernoulli(rng: &mut StdRng, p: Probability) -> (r: bool)
    ensures
        p.0 == 0 ==> !r,
        p.0 >= PARTS_PER_UNIT ==> r,
{
    let draw = draw_below(rng, PARTS_PER_UNIT);
    bernoulli_outcome(p, draw)
}

/// Outcome of a Bernoulli trial with success probability
/// `successes / total`, from a draw below `total`.
pub fn ratio_outcome(successes: u64, draw: u64) -> (r: bool)
    ensures
        r == (draw < successes),
{
    draw < successes
}

/// A Bernoulli trial with success probability `successes / total`.
pub fn bernoulli_ratio(rng: &mut StdRng, successes: u64, total: u64) -> (r: bool)
    requires
        total > 0,
    ensures
        successes == 0 ==> !r,
        successes >= total ==> r,
{
    let draw = draw_below(rng, total);
    ratio_outcome(successes, draw)
}

/// Stochastic rounding of `numerator / denominator` from a draw below
/// `denominator`: the quotient, plus one when the draw falls below the remainder.
pub fn round_with_draw(numerator: u128, denominator: u64, draw: u64) -> (r: u128)
    requires
        denominator > 0,
    ensures
        r == round_stoch_spec(numerator as int, denominator as int, draw as int),
{
    let quotient = numerator / denominator as u128;
    let remainder = numerator % denominator as u128;
    if (draw as u128) < remainder {
        proof {
            assert(quotient * denominator + remainder == numerator) by (nonlinear_arith)
                requires
                    quotient == numerator as int / denominator as int,
                    remainder == numerator as int % denominator as int,
                    denominator > 0,
            ;
            assert(quotient < u128::MAX) by (nonlinear_arith)
                requires
                    quotient * denominator + remainder == numerator,
                    remainder > 0,
                    numerator <= u128::MAX,
                    denominator > 0,
            ;
        }
        quotient + 1
    } else {
        quotient
    }
}

/// Round `numerator / denominator` to a neighbouring integer: up with
/// probability equal to the fractional part, down otherwise.
pub fn round_stoch(rng: &mut StdRng, numerator: u128, denominator: u64) -> (r: u128)
    requires
        denominator > 0,
    ensures
        exists|draw: int|
            0 <= draw < denominator && r == round_stoch_spec(
                numerator as int,
                denominator as int,
                draw,
            ),
{
    let draw = draw_below(rng, denominator);
    round_with_draw(numerator, denominator, draw)
}

/// Sum of the stochastically rounded values over the draws `0..k`.
pub open spec fn sum_of_rounds(numerator: int, denominator: int, k: nat) -> int
    decreases k,
{
    if k == 0 {
        0
    } else {
        sum_of_rounds(numerator, denominator, (k - 1) as nat) + round_stoch_spec(
            numerator,
            denominator,
            k - 1,
        )
    }
}

proof fn lemma_sum_of_rounds_prefix(numerator: int, denominator: int, k: nat)
    requires
        numerator >= 0,
        denominator > 0,
        k <= denominator,
    ensures
        sum_of_rounds(numerator, denominator, k) == k * (numerator / denominator) + if k
            <= numerator % denominator {
            k as int
        } else {
            numerator % denominator
        },
    decreases k,
{
    if k > 0 {
        let q = numerator / denominator;
        let m = numerator % denominator;
        lemma_sum_of_rounds_prefix(numerator, denominator, (k - 1) as nat);
        assert(k * q == (k - 1) * q + q) by (nonlinear_arith);
        assert(sum_of_rounds(numerator, denominator, k) == sum_of_rounds(
            numerator,
            denominator,
            (k - 1) as nat,
        ) + round_stoch_spec(numerator, denominator, k - 1));
        assert(round_stoch_spec(numerator, denominator, k - 1) == q + if k - 1 < m {
            1int
        } else {
            0int
        });
        assert(0 <= m < denominator);
        if k <= m {
            assert(sum_of_rounds(numerator, denominator, (k - 1) as nat) == (k - 1) * q + (k - 1));
        } else {
            assert(sum_of_rounds(numerator, denominator, (k - 1) as nat) == (k - 1) * q + m);
        }
    } else {
        assert(0 * (numerator / denominator) == 0);
    }
}

/// Stochastic rounding is unbiased: over all `denominator` equally likely
/// draws, the rounded values of `numerator / denominator` sum to `numerator`,
/// so their mean is exactly `numerator / denominator`.
pub proof fn lemma_round_stoch_unbiased(numerator: int, denominator: int)
    requires
        numerator >= 0,
        denominator > 0,
    ensures
        sum_of_rounds(numerator, denominator, denominator as nat) == numerator,
{
    lemma_sum_of_rounds_prefix(numerator, denominator, denominator as nat);
    assert(0 <= numerator % denominator < denominator);
    assert(denominator * (numerator / denominator) + numerator % denominator == numerator) by (
    nonlinear_arith)
        requires
            denominator > 0,
    ;
}

/// Rounding a quotient that is at most `bound` never exceeds `bound`.
pub proof fn lemma_round_stoch_at_most(numerator: int, denominator: int, bound: int, draw: int)
    requires
        0 <= numerator <= bound * denominator,
        denominator > 0,
        0 <= draw,
    ensures
        0 <= round_stoch_spec(numerator, denominator, draw) <= bound,
{
    let fl = numerator / denominator;
    let rm = numerator % denominator;
    assert(fl * denominator + rm == numerator && 0 <= rm < denominator) by (nonlinear_arith)
        requires
            denominator > 0,
            fl == numerator / denominator,
            rm == numerator % denominator,
    ;
    assert(0 <= fl) by (nonlinear_arith)
        requires
            fl * denominator + rm == numerator,
            0 <= rm < denominator,
            0 <= numerator,
    ;
    if rm > 0 {
        assert(fl < bound) by (nonlinear_arith)
            requires
                fl * denominator + rm == numerator,
                numerator <= bound * denominator,
                rm > 0,
                denominator > 0,
        ;
    } else {
        assert(fl <= bound) by (nonlinear_arith)
            requires
                fl * denominator + rm == numerator,
                numerator <= bound * denominator,
                rm >= 0,
                denominator > 0,
        ;
    }
}

} // verus!
