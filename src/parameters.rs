//! Rates and probabilities used by the disease, contact and surveillance
//! processes.
//!
//! Both are fixed-point numbers counted in billionths: `Rate(1_500_000_000)`
//! is 1.5 events per day, `Probability(250_000_000)` is one chance in four.
//! Arithmetic on them rounds down to the nearest billionth.

use vstd::prelude::*;

verus! {

/// Number of fixed-point parts in one whole unit.
pub const PARTS_PER_UNIT: u64 = 1_000_000_000;

/// A non-negative rate of an exponential process, in billionths per day.
#[derive(Debug, Clone, Copy, PartialEq, Eq, Structural)]
pub struct Rate(pub u64);

/// A probability, in billionths: `0..=PARTS_PER_UNIT`.
#[derive(Debug, Clone, Copy, PartialEq, Eq, Structural)]
pub struct Probability(pub u64);

/// Why a number is not a valid rate or probability.
#[derive(Debug, Clone, Copy, PartialEq, Eq, Structural)]
pub enum ConversionError {
    /// A rate must not be negative.
    NegativeRate,
    /// A probability must lie between 0 and 1.
    NotInbetweenZeroAndOne,
}

impl ConversionError {
    /// A human-readable description of the error.
    pub fn message(&self) -> (r: &'static str) {
        match self {
            ConversionError::NegativeRate => "negative number is not a valid rate",
            ConversionError::NotInbetweenZeroAndOne => {
                "number is not between 0 and 1, thus not a valid probability"
            },
        }
    }
}

impl Rate {
    /// Make a rate from a count of billionths; negative counts are refused.
    pub fn new(value: i64) -> (r: Result<Rate, ConversionError>)
        ensures
            value < 0 <==> r == Err::<Rate, ConversionError>(ConversionError::NegativeRate),
            value >= 0 <==> r == Ok::<Rate, ConversionError>(Rate(value as u64)),
    {
        if value < 0 {
            Err(ConversionError::NegativeRate)
        } else {
            Ok(Rate(value as u64))
        }
    }
}

impl Probability {
    /// The probability lies in `[0, 1]`.
    pub open spec fn valid(self) -> bool {
        self.0 <= PARTS_PER_UNIT
    }

    /// Make a probability from a count of billionths; counts outside
    /// `0..=PARTS_PER_UNIT` are refused.
    pub fn new(value: i64) -> (r: Result<Probability, ConversionError>)
        ensures
            (value < 0 || value > PARTS_PER_UNIT) <==> r == Err::<Probability, ConversionError>(
                ConversionError::NotInbetweenZeroAndOne,
            ),
            (0 <= value <= PARTS_PER_UNIT) <==> r == Ok::<Probability, ConversionError>(
                Probability(value as u64),
            ),
    {
        if value < 0 || value > PARTS_PER_UNIT as i64 {
            Err(ConversionError::NotInbetweenZeroAndOne)
        } else {
            Ok(Probability(value as u64))
        }
    }

    /// The probability of the opposite outcome, `1 - p`.
    pub fn complement(self) -> (r: Probability)
        requires
            self.valid(),
        ensures
            r.valid(),
            r.0 == PARTS_PER_UNIT - self.0,
    {
        Probability(PARTS_PER_UNIT - self.0)
    }

    /// Probability that at least one of independent events with the given
    /// probabilities happens: `1 - prod(1 - p_i)`.
    pub fn compound(probabilities: &[Probability]) -> (r: Probability)
        requires
            all_valid(probabilities@),
        ensures
            r.valid(),
            r.0 == PARTS_PER_UNIT - none_happens(probabilities@),
    {
        compound_probabilities(probabilities)
    }

    /// Probability that at least one of `n` independent events, each with
    /// probability `self`, happens: `1 - (1 - p)^n`.
    pub fn compound_repeated(self, n: u64) -> (r: Probability)
        requires
            self.valid(),
        ensures
            r.valid(),
            r.0 == PARTS_PER_UNIT - none_happens_repeated(self, n as nat),
    {
        let q = PARTS_PER_UNIT - self.0;
        let mut acc: u64 = PARTS_PER_UNIT;
        let mut i: u64 = 0;
        while i < n && acc > 0
            invariant
                i <= n,
                q <= PARTS_PER_UNIT,
                q == PARTS_PER_UNIT - self.0,
                acc <= PARTS_PER_UNIT,
                acc == none_happens_repeated(self, i as nat),
            decreases n - i,
        {
            proof {
                lemma_mul_fixed_bounded(acc as int, q as int);
            }
            acc = ((acc as u128 * q as u128) / PARTS_PER_UNIT as u128) as u64;
            i = i + 1;
        }
        proof {
            if i < n {
                lemma_none_happens_stays_zero(self, i as nat, n as nat);
            }
        }
        Probability(PARTS_PER_UNIT - acc)
    }
}

/// Every probability in the sequence lies in `[0, 1]`.
pub open spec fn all_valid(ps: Seq<Probability>) -> bool {
    forall|i: int| 0 <= i < ps.len() ==> (#[trigger] ps[i]).valid()
}

/// Product of two fixed-point numbers, rounded down.
pub open spec fn mul_fixed(a: int, b: int) -> int {
    a * b / (PARTS_PER_UNIT as int)
}

/// Fixed-point probability that none of the events happens: the product of
/// the complements, taken left to right and rounded down at each step.
pub open spec fn none_happens(ps: Seq<Probability>) -> int
    decreases ps.len(),
{
    if ps.len() == 0 {
        PARTS_PER_UNIT as int
    } else {
        mul_fixed(
            none_happens(ps.drop_last()),
            PARTS_PER_UNIT as int - ps.last().0 as int,
        )
    }
}

/// Fixed-point probability that none of `n` events of probability `p` happens.
pub open spec fn none_happens_repeated(p: Probability, n: nat) -> int
    decreases n,
{
    if n == 0 {
        PARTS_PER_UNIT as int
    } else {
        mul_fixed(none_happens_repeated(p, (n - 1) as nat), PARTS_PER_UNIT as int - p.0 as int)
    }
}

proof fn lemma_mul_fixed_bounded(a: int, b: int)
    requires
        0 <= a <= PARTS_PER_UNIT,
        0 <= b <= PARTS_PER_UNIT,
    ensures
        0 <= mul_fixed(a, b) <= a,
        a * b <= PARTS_PER_UNIT * PARTS_PER_UNIT,
{
    assert(a * b <= a * PARTS_PER_UNIT) by (nonlinear_arith)
        requires
            0 <= a,
            b <= PARTS_PER_UNIT,
    ;
    assert(a * PARTS_PER_UNIT <= PARTS_PER_UNIT * PARTS_PER_UNIT) by (nonlinear_arith)
        requires
            a <= PARTS_PER_UNIT,
    ;
    assert(0 <= a * b) by (nonlinear_arith)
        requires
            0 <= a,
            0 <= b,
    ;
    assert(a * b / (PARTS_PER_UNIT as int) <= a * (PARTS_PER_UNIT as int) / (
    PARTS_PER_UNIT as int)) by (nonlinear_arith)
        requires
            a * b <= a * PARTS_PER_UNIT,
            0 <= a * b,
    ;
    assert(a * (PARTS_PER_UNIT as int) / (PARTS_PER_UNIT as int) == a) by (nonlinear_arith);
}

proof fn lemma_none_happens_stays_zero(p: Probability, i: nat, n: nat)
    requires
        i <= n,
        none_happens_repeated(p, i) == 0,
    ensures
        none_happens_repeated(p, n) == 0,
    decreases n - i,
{
    if i < n {
        lemma_none_happens_stays_zero(p, i, (n - 1) as nat);
        assert(mul_fixed(0, PARTS_PER_UNIT as int - p.0 as int) == 0);
    }
}

/// Compounds probabilities by multiplying their complements; the same value
/// as [`Probability::compound`].
fn compound_probabilities(probabilities: &[Probability]) -> (r: Probability)
    requires
        all_valid(probabilities@),
    ensures
        r.valid(),
        r.0 == PARTS_PER_UNIT - none_happens(probabilities@),
{
    let mut acc: u64 = PARTS_PER_UNIT;
    let mut i: usize = 0;
    while i < probabilities.len()
        invariant
            i <= probabilities@.len(),
            all_valid(probabilities@),
            acc <= PARTS_PER_UNIT,
            acc == none_happens(probabilities@.subrange(0, i as int)),
        decreases probabilities@.len() - i,
    {
        let q = probabilities[i].complement();
        proof {
            lemma_mul_fixed_bounded(acc as int, q.0 as int);
            let prefix = probabilities@.subrange(0, i as int + 1);
            assert(prefix.drop_last() =~= probabilities@.subrange(0, i as int));
            assert(prefix.last() == probabilities@[i as int]);
        }
        acc = ((acc as u128 * q.0 as u128) / PARTS_PER_UNIT as u128) as u64;
        i = i + 1;
    }
    proof {
        assert(probabilities@.subrange(0, i as int) =~= probabilities@);
    }
    Probability(acc).complement()
}

} // verus!
