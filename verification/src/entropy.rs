use vstd::prelude::*;

use vstd::arithmetic::power2::{
    lemma2_to64, lemma2_to64_rest, lemma_pow2_pos, lemma_pow2_strictly_increases,
    lemma_pow2_unfold, pow2,
};
use vstd::string::StrSliceExecFns;

verus! {

/// Assumed adversary guess rate: one trillion guesses each second.
pub const GUESSES_PER_SECOND: u128 = 1_000_000_000_000;

/// Seconds in a Julian year of 365.25 days.
pub const SECONDS_PER_YEAR: u128 = 31_557_600;

/// Guesses the assumed adversary makes in one year: the guess rate times
/// the seconds in a year.
pub const GUESSES_PER_YEAR: u128 = 31_557_600_000_000_000_000;

/// An address with every leading `0x` marker removed.
pub open spec fn spec_strip_0x(a: Seq<char>) -> Seq<char>
    decreases a.len(),
{
    if a.len() >= 2 && a[0] == '0' && a[1] == 'x' {
        spec_strip_0x(a.skip(2))
    } else {
        a
    }
}

/// The entropy estimate of an address: four bits for each hex character
/// after the leading `0x` marker. A rough contiguous-window figure; it
/// does not jointly model combined prefix, suffix and zero constraints.
pub open spec fn spec_entropy_bits(a: Seq<char>) -> nat {
    spec_strip_0x(a).len() * 4
}

/// Estimates the entropy of an address as four bits per hex character,
/// the leading `0x` marker excluded.
pub fn estimate_entropy_bits(address: &str) -> (r: usize)
    requires
        address@.len() <= usize::MAX / 4,
    ensures
        r == spec_entropy_bits(address@),
{
    let n = address.unicode_len();
    let mut start: usize = 0;
    proof {
        assert(address@.skip(0) =~= address@);
    }
    while start + 1 < n && address.get_char(start) == '0' && address.get_char(start + 1) == 'x'
        invariant
            n == address@.len(),
            n <= usize::MAX / 4,
            start <= n,
            spec_strip_0x(address@) == spec_strip_0x(address@.skip(start as int)),
        decreases n - start,
    {
        proof {
            assert(address@.skip(start as int).skip(2) =~= address@.skip(start as int + 2));
        }
        start = start + 2;
    }
    proof {
        assert(spec_strip_0x(address@.skip(start as int)) == address@.skip(start as int));
    }
    (n - start) * 4
}

/// How long an exhaustive search of an entropy space takes at the assumed
/// guess rate: a whole number of years and a remainder of further guesses.
/// The pair represents the exact rational `pow2(bits) / GUESSES_PER_YEAR`.
pub struct YearsToCrack {
    pub whole: u128,
    pub frac: u128,
}

impl YearsToCrack {
    /// The remainder never reaches a full year of guesses.
    pub open spec fn wf(self) -> bool {
        self.frac < GUESSES_PER_YEAR
    }

    /// The total guess count this duration stands for.
    pub open spec fn spec_guesses(self) -> int {
        self.whole * GUESSES_PER_YEAR + self.frac
    }

    /// Strictly-less comparison of two durations over a common denominator.
    pub open spec fn spec_lt(self, other: YearsToCrack) -> bool {
        self.whole < other.whole || (self.whole == other.whole && self.frac < other.frac)
    }

    /// Whether this duration is more than nothing at all.
    pub open spec fn spec_positive(self) -> bool {
        self.whole > 0 || self.frac > 0
    }

    /// Compares two durations.
    pub fn lt(&self, other: &YearsToCrack) -> (r: bool)
        ensures
            r == self.spec_lt(*other),
    {
        self.whole < other.whole || (self.whole == other.whole && self.frac < other.frac)
    }

    /// Whether this duration is more than nothing at all.
    pub fn is_positive(&self) -> (r: bool)
        ensures
            r == self.spec_positive(),
    {
        self.whole > 0 || self.frac > 0
    }
}

/// The exact time an adversary guessing a trillion times a second needs to
/// exhaust a space of `entropy_bits` bits, as whole years plus a remainder
/// of guesses: the result represents `pow2(entropy_bits)` guesses exactly.
pub fn calculate_years_to_crack(entropy_bits: usize) -> (r: YearsToCrack)
    requires
        entropy_bits <= 160,
    ensures
        r.wf(),
        r.spec_guesses() == pow2(entropy_bits as nat),
{
    proof {
        lemma2_to64();
    }
    let mut whole: u128 = 0;
    let mut frac: u128 = 1;
    let mut k: usize = 0;
    while k < entropy_bits
        invariant
            k <= entropy_bits <= 160,
            frac < GUESSES_PER_YEAR,
            whole * GUESSES_PER_YEAR + frac == pow2(k as nat),
        decreases entropy_bits - k,
    {
        proof {
            lemma_pow2_unfold((k + 1) as nat);
            assert(2 * (whole * GUESSES_PER_YEAR + frac) == pow2((k + 1) as nat));
            // the running quotient is far from overflowing: its share of
            // pow2(k), divided by more than pow2(64), is under pow2(96)
            lemma_years_quotient_bound(whole, frac, k as nat);
        }
        let frac2 = 2 * frac;
        if frac2 >= GUESSES_PER_YEAR {
            whole = 2 * whole + 1;
            frac = frac2 - GUESSES_PER_YEAR;
        } else {
            whole = 2 * whole;
            frac = frac2;
        }
        k = k + 1;
    }
    YearsToCrack { whole, frac }
}

/// The running quotient of the doubling loop stays below `pow2(96)`.
proof fn lemma_years_quotient_bound(whole: u128, frac: u128, k: nat)
    requires
        k <= 159,
        frac < GUESSES_PER_YEAR,
        whole * GUESSES_PER_YEAR + frac == pow2(k),
    ensures
        whole < 0x1000000000000000000000000,
{
    lemma2_to64();
    lemma2_to64_rest();
    vstd::arithmetic::power2::lemma_pow2_adds(64, 32);
    assert(pow2(96) == 0x1000000000000000000000000);
    vstd::arithmetic::power2::lemma_pow2_adds(96, 64);
    lemma_pow2_strictly_increases(k, 160);
    assert(whole * pow2(64) < pow2(96) * pow2(64)) by (nonlinear_arith)
        requires
            whole * GUESSES_PER_YEAR + frac == pow2(k),
            frac >= 0,
            whole >= 0,
            GUESSES_PER_YEAR >= pow2(64),
            pow2(k) < pow2(160),
            pow2(160) == pow2(96) * pow2(64),
    ;
    assert(whole < pow2(96)) by (nonlinear_arith)
        requires
            whole * pow2(64) < pow2(96) * pow2(64),
            pow2(64) > 0,
            whole >= 0,
    ;
}

/// Searching a larger entropy space takes strictly longer, and searching
/// any space takes a positive number of guesses.
pub proof fn lemma_years_strictly_increasing(y1: YearsToCrack, y2: YearsToCrack, b1: nat, b2: nat)
    requires
        b1 < b2,
        y1.wf(),
        y2.wf(),
        y1.spec_guesses() == pow2(b1),
        y2.spec_guesses() == pow2(b2),
    ensures
        y1.spec_lt(y2),
        y1.spec_positive(),
{
    lemma_pow2_strictly_increases(b1, b2);
    lemma_pow2_pos(b1);
    assert(y1.whole <= y2.whole) by (nonlinear_arith)
        requires
            y1.whole * GUESSES_PER_YEAR + y1.frac < y2.whole * GUESSES_PER_YEAR + y2.frac,
            y1.frac < GUESSES_PER_YEAR,
            y2.frac < GUESSES_PER_YEAR,
            y1.frac >= 0,
            y2.frac >= 0,
            y1.whole >= 0,
            y2.whole >= 0,
    ;
    if y1.whole == y2.whole {
        assert(y1.frac < y2.frac);
    }
}

} // verus!
