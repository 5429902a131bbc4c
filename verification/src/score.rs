//! Fuzzy scores in `[0, 100]` and the operators that combine them.

use vstd::prelude::*;

use crate::rounding::{binary_fraction, binary_fraction_score, down_shift, rne, round_int, DOUBLE_FRACTION_BITS, SINGLE_FRACTION_BITS};
use vstd::arithmetic::power2::pow2;
use crate::text::{decimal, decimal_string};

verus! {

/// A score in the range `[0, 100]`.
///
/// `Score(100)` means "definitely matches", `Score(0)` means "does not match".
#[derive(Debug, Clone, Copy, PartialEq, Eq, Structural, PartialOrd, Ord, Default)]
pub struct Score(pub u8);

/// The largest meaningful score.
pub const MAX_SCORE: u8 = 100;

/// Fuzzy AND on raw score values: the minimum.
pub open spec fn min_u8(a: u8, b: u8) -> u8 {
    if a <= b { a } else { b }
}

/// Fuzzy OR on raw score values: the maximum.
pub open spec fn max_u8(a: u8, b: u8) -> u8 {
    if a >= b { a } else { b }
}

/// Fuzzy NOT on raw score values: `100 - v`, saturating at zero.
pub open spec fn not_u8(v: u8) -> u8 {
    if v <= 100 { (100 - v) as u8 } else { 0 }
}

/// The score that the fraction `num / den` maps to when it is computed
/// through binary floating point with significands of `lo + 1` bits: the
/// quotient, clamped to at most one, times 100, rounded half away from zero
/// (see [`binary_fraction_score`]).
pub open spec fn fraction_score(num: nat, den: nat, lo: nat) -> u8 {
    binary_fraction_score(num, den, lo) as u8
}

impl Score {
    /// Fuzzy AND: `min(self, other)`.
    pub fn and(self, other: Score) -> (r: Score)
        ensures
            r.0 == min_u8(self.0, other.0),
    {
        if self.0 <= other.0 { self } else { other }
    }

    /// Fuzzy OR: `max(self, other)`.
    pub fn or(self, other: Score) -> (r: Score)
        ensures
            r.0 == max_u8(self.0, other.0),
    {
        if self.0 >= other.0 { self } else { other }
    }

    /// Fuzzy NOT: `100 - self`, saturating at zero.
    pub fn negate(self) -> (r: Score)
        ensures
            r.0 == not_u8(self.0),
    {
        Score(100u8.saturating_sub(self.0))
    }

    /// Binary sensors: `true` maps to `Score(100)`, `false` to `Score(0)`.
    pub fn from_bool(v: bool) -> (r: Score)
        ensures
            r.0 == (if v { 100u8 } else { 0u8 }),
    {
        if v { Score(100) } else { Score(0) }
    }

    /// Converts an integer to a score, clamping to `[0, 100]`.
    pub fn from_i64(v: i64) -> (r: Score)
        ensures
            r.0 == (if v < 0 { 0 } else if v > 100 { 100 } else { v }),
    {
        if v < 0 {
            Score(0)
        } else if v > 100 {
            Score(100)
        } else {
            Score(v as u8)
        }
    }

    /// The score as decimal text, e.g. `"75"`.
    pub fn to_string(&self) -> (r: String)
        ensures
            r@ == decimal(self.0 as nat),
    {
        decimal_string(self.0 as u64)
    }

    /// Converts the fraction `num / den` to a score the way binary floating
    /// point with `lo` fraction bits does (see [`fraction_score`]).
    pub fn from_fraction(num: u64, den: u64, lo: u32) -> (r: Score)
        requires
            den > 0,
            lo == SINGLE_FRACTION_BITS || lo == DOUBLE_FRACTION_BITS,
        ensures
            r.0 == fraction_score(num as nat, den as nat, lo as nat),
            r.0 <= 100,
    {
        Score(binary_fraction(num, den, lo))
    }
}

impl From<u8> for Score {
    fn from(v: u8) -> (r: Score) {
        Score(v)
    }
}

impl vstd::std_specs::convert::FromSpecImpl<u8> for Score {
    open spec fn obeys_from_spec() -> bool {
        true
    }

    open spec fn from_spec(v: u8) -> Score {
        Score(v)
    }
}

impl From<i64> for Score {
    /// Converts an integer to a score, clamping to `[0, 100]`.
    fn from(v: i64) -> (r: Score) {
        Score::from_i64(v)
    }
}

impl vstd::std_specs::convert::FromSpecImpl<i64> for Score {
    open spec fn obeys_from_spec() -> bool {
        true
    }

    open spec fn from_spec(v: i64) -> Score {
        Score((if v < 0 { 0 } else if v > 100 { 100 } else { v }) as u8)
    }
}

impl From<bool> for Score {
    fn from(v: bool) -> (r: Score) {
        Score::from_bool(v)
    }
}

impl vstd::std_specs::convert::FromSpecImpl<bool> for Score {
    open spec fn obeys_from_spec() -> bool {
        true
    }

    open spec fn from_spec(v: bool) -> Score {
        Score(if v { 100u8 } else { 0u8 })
    }
}

impl From<Score> for u8 {
    fn from(s: Score) -> (r: u8) {
        s.0
    }
}

impl vstd::std_specs::convert::FromSpecImpl<Score> for u8 {
    open spec fn obeys_from_spec() -> bool {
        true
    }

    open spec fn from_spec(s: Score) -> u8 {
        s.0
    }
}

impl core::ops::Not for Score {
    type Output = Score;

    /// Fuzzy NOT: `100 - self`, saturating at zero.
    fn not(self) -> (r: Score) {
        self.negate()
    }
}

impl vstd::std_specs::ops::NotSpecImpl for Score {
    open spec fn obeys_not_spec() -> bool {
        true
    }

    open spec fn not_req(self) -> bool {
        true
    }

    open spec fn not_spec(self) -> Score {
        Score(not_u8(self.0))
    }
}

// ---------------------------------------------------------------------------
// Laws of the fuzzy operators
// ---------------------------------------------------------------------------

/// AND and OR are commutative.
pub proof fn lemma_and_or_commutative(a: u8, b: u8)
    ensures
        min_u8(a, b) == min_u8(b, a),
        max_u8(a, b) == max_u8(b, a),
{
}

/// AND and OR are associative.
pub proof fn lemma_and_or_associative(a: u8, b: u8, c: u8)
    ensures
        min_u8(min_u8(a, b), c) == min_u8(a, min_u8(b, c)),
        max_u8(max_u8(a, b), c) == max_u8(a, max_u8(b, c)),
{
}

/// AND and OR are idempotent, and each absorbs the other.
pub proof fn lemma_and_or_idempotent_absorbing(a: u8, b: u8)
    ensures
        min_u8(a, a) == a,
        max_u8(a, a) == a,
        min_u8(a, max_u8(a, b)) == a,
        max_u8(a, min_u8(a, b)) == a,
{
}

/// On scores in `[0, 100]`: 100 is the identity of AND and 0 that of OR; 0
/// annihilates AND and 100 annihilates OR.
pub proof fn lemma_and_or_identities(a: u8)
    requires
        a <= 100,
    ensures
        min_u8(a, 100) == a,
        max_u8(a, 0) == a,
        min_u8(a, 0) == 0,
        max_u8(a, 100) == 100,
{
}

/// On scores in `[0, 100]`, NOT is an involution and reverses the order.
pub proof fn lemma_not_involution(a: u8, b: u8)
    requires
        a <= 100,
        b <= 100,
    ensures
        not_u8(not_u8(a)) == a,
        not_u8(a) <= 100,
        a <= b ==> not_u8(b) <= not_u8(a),
{
}

/// De Morgan's laws hold on scores in `[0, 100]`.
pub proof fn lemma_de_morgan(a: u8, b: u8)
    requires
        a <= 100,
        b <= 100,
    ensures
        not_u8(min_u8(a, b)) == max_u8(not_u8(a), not_u8(b)),
        not_u8(max_u8(a, b)) == min_u8(not_u8(a), not_u8(b)),
{
}

/// NOT of any byte above 100 is 0, as `100 - v` saturates.
pub proof fn lemma_not_saturates(a: u8)
    requires
        a > 100,
    ensures
        not_u8(a) == 0,
{
}

/// A zero numerator scores 0, whatever the denominator and precision.
pub proof fn lemma_fraction_score_zero(den: nat, lo: nat)
    ensures
        fraction_score(0, den, lo) == 0,
{
    vstd::arithmetic::power2::lemma_pow2_pos(lo + 1);
    vstd::arithmetic::power2::lemma2_to64();
    assert(down_shift(0, lo) == 0);
    assert(rne(0, pow2(0)) == 0);
    assert(round_int(0, lo) == 0);
}

} // verus!
