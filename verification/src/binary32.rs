//! Single-precision numbers (IEEE 754 binary32), held as their bit patterns and
//! compared as the standard says.
use vstd::arithmetic::power2::*;
use vstd::prelude::*;

verus! {

/// A single-precision number.
#[derive(Clone, Copy, Debug, PartialEq, Eq, Structural)]
pub struct Binary32 {
    /// Sign, exponent and fraction, from the highest bit down.
    pub bits: u32,
}

/// The bits of the number 0.
pub const ZERO: u32 = 0x0000_0000;

/// The bits of the number 0.25.
pub const QUARTER: u32 = 0x3e80_0000;

/// The bits of the number closest to 0.8.
pub const FOUR_FIFTHS: u32 = 0x3f4c_cccd;

/// The bits of the number 1.
pub const ONE: u32 = 0x3f80_0000;

/// The bits of the number 4.
pub const FOUR: u32 = 0x4080_0000;

/// The bits of the number 10.
pub const TEN: u32 = 0x4120_0000;

/// The bits of the number 100.
pub const HUNDRED: u32 = 0x42c8_0000;

impl Binary32 {
    /// Exponent and fraction without the sign. Among numbers of one sign it grows
    /// with the distance from zero.
    pub open spec fn magnitude(self) -> int {
        (self.bits as int) % 0x8000_0000
    }

    /// The number's place among all numbers: `a` is less than `b` exactly if it has
    /// the lower place; both zeros have the same one.
    pub open spec fn place(self) -> int {
        if self.bits < 0x8000_0000 {
            self.magnitude()
        } else {
            -self.magnitude()
        }
    }

    /// Not a number.
    pub open spec fn nan(self) -> bool {
        self.magnitude() > 0x7f80_0000
    }

    /// Neither infinite nor not a number.
    pub open spec fn finite(self) -> bool {
        self.magnitude() < 0x7f80_0000
    }

    /// Both are numbers, and `self` is less.
    pub open spec fn less(self, other: Binary32) -> bool {
        !self.nan() && !other.nan() && self.place() < other.place()
    }

    /// Both are numbers, and `self` is not greater.
    pub open spec fn at_most(self, other: Binary32) -> bool {
        !self.nan() && !other.nan() && self.place() <= other.place()
    }

    /// Whether this is not a number.
    pub fn is_nan(self) -> (r: bool)
        ensures
            r == self.nan(),
    {
        self.bits % 0x8000_0000 > 0x7f80_0000
    }

    /// Whether this is neither infinite nor not a number.
    pub fn is_finite(self) -> (r: bool)
        ensures
            r == self.finite(),
    {
        self.bits % 0x8000_0000 < 0x7f80_0000
    }

    /// The place among all numbers.
    fn rank(self) -> (r: i64)
        ensures
            r == self.place(),
    {
        let m: i64 = (self.bits % 0x8000_0000) as i64;
        if self.bits < 0x8000_0000 {
            m
        } else {
            -m
        }
    }

    /// Whether this is less than `other`.
    pub fn is_less(self, other: Binary32) -> (r: bool)
        ensures
            r == self.less(other),
    {
        !self.is_nan() && !other.is_nan() && self.rank() < other.rank()
    }

    /// Whether this is at most `other`.
    pub fn is_at_most(self, other: Binary32) -> (r: bool)
        ensures
            r == self.at_most(other),
    {
        !self.is_nan() && !other.is_nan() && self.rank() <= other.rank()
    }

    /// This number kept within `low` and `high`: what lies outside becomes the nearer
    /// bound, what is not a number stays as it is.
    pub fn clamp_to(self, low: Binary32, high: Binary32) -> (r: Binary32)
        requires
            low.at_most(high),
        ensures
            r == clamped(self, low, high),
    {
        if self.is_less(low) {
            low
        } else if high.is_less(self) {
            high
        } else {
            self
        }
    }
}

/// `x` kept within `low` and `high`.
pub open spec fn clamped(x: Binary32, low: Binary32, high: Binary32) -> Binary32 {
    if x.less(low) {
        low
    } else if high.less(x) {
        high
    } else {
        x
    }
}

impl Binary32 {
    /// The number that finite bits stand for, times two to the power of 149: a sign, an
    /// exponent of eight bits and a fraction of 23 bits.
    pub open spec fn scaled(self) -> int {
        let exponent = self.bits as int / 0x80_0000 % 0x100;
        let fraction = self.bits as int % 0x80_0000;
        let size = if exponent == 0 {
            fraction
        } else {
            (fraction + 0x80_0000) * pow2((exponent - 1) as nat)
        };
        if self.bits < 0x8000_0000 {
            size
        } else {
            -size
        }
    }
}

proof fn lemma_larger_magnitude(a: int, b: int)
    requires
        0 <= a < b < 0x7f80_0000,
    ensures
        ({
            let (e, f) = (a / 0x80_0000, a % 0x80_0000);
            let (g, h) = (b / 0x80_0000, b % 0x80_0000);
            let x = if e == 0 {
                f
            } else {
                (f + 0x80_0000) * pow2((e - 1) as nat)
            };
            let y = if g == 0 {
                h
            } else {
                (h + 0x80_0000) * pow2((g - 1) as nat)
            };
            0 <= x < y
        }),
{
    let (e, f) = (a / 0x80_0000, a % 0x80_0000);
    let (g, h) = (b / 0x80_0000, b % 0x80_0000);
    if e > 0 {
        lemma_pow2_pos((e - 1) as nat);
    }
    if g > 0 {
        lemma_pow2_pos((g - 1) as nat);
    }
    if e == g {
        if e > 0 {
            let p = pow2((e - 1) as nat) as int;
            assert((f + 0x80_0000) * p < (h + 0x80_0000) * p && 0 <= (f + 0x80_0000) * p)
                by (nonlinear_arith)
                requires
                    0 <= f < h,
                    p > 0,
            ;
        }
    } else {
        assert(e < g);
        let q = pow2((g - 1) as nat) as int;
        assert((h + 0x80_0000) * q >= 0x80_0000 * q) by (nonlinear_arith)
            requires
                0 <= h,
                q > 0,
        ;
        if e > 0 {
            let p = pow2((e - 1) as nat) as int;
            lemma_pow2_unfold(e as nat);
            if e < g - 1 {
                lemma_pow2_strictly_increases(e as nat, (g - 1) as nat);
            }
            assert(2 * p <= q);
            assert((f + 0x80_0000) * p < 0x100_0000 * p && 0 <= (f + 0x80_0000) * p)
                by (nonlinear_arith)
                requires
                    0 <= f < 0x80_0000,
                    p > 0,
            ;
        }
    }
}

/// The order is that of the numbers that the bits stand for: of two finite values one is less
/// than the other, or at most the other, exactly if its number is. The two zeros are equal.
pub proof fn law_order_is_numeric(a: Binary32, b: Binary32)
    requires
        a.bits as int / 0x80_0000 % 0x100 != 0xff,
        b.bits as int / 0x80_0000 % 0x100 != 0xff,
    ensures
        a.less(b) <==> a.scaled() < b.scaled(),
        a.at_most(b) <==> a.scaled() <= b.scaled(),
{
    let m = a.magnitude();
    let n = b.magnitude();
    assert(m < 0x7f80_0000 && n < 0x7f80_0000);
    if m < n {
        lemma_larger_magnitude(m, n);
    }
    if n < m {
        lemma_larger_magnitude(n, m);
    }
    if m > 0 {
        lemma_larger_magnitude(0, m);
    }
    if n > 0 {
        lemma_larger_magnitude(0, n);
    }
}

/// A value is finite exactly if its exponent bits are not all set. What is not a number has
/// all of them set and a fraction, and is neither less than anything nor at most anything.
/// The two infinities lie outside all finite values.
pub proof fn law_special_values(a: Binary32, b: Binary32)
    ensures
        a.finite() <==> a.bits as int / 0x80_0000 % 0x100 != 0xff,
        a.nan() <==> a.bits as int / 0x80_0000 % 0x100 == 0xff && a.bits as int % 0x80_0000 != 0,
        a.nan() || b.nan() ==> !a.less(b) && !a.at_most(b),
        a.finite() ==> a.less(Binary32 { bits: 0x7f80_0000 }) && (Binary32 {
            bits: 0xff80_0000,
        }).less(a),
{
}

/// The named numbers are what their names say.
pub proof fn law_named_numbers()
    ensures
        (Binary32 { bits: ZERO }).scaled() == 0,
        (Binary32 { bits: ONE }).scaled() == pow2(149),
        4 * (Binary32 { bits: QUARTER }).scaled() == pow2(149),
        (Binary32 { bits: FOUR }).scaled() == 4 * pow2(149),
        (Binary32 { bits: TEN }).scaled() == 10 * pow2(149),
        (Binary32 { bits: HUNDRED }).scaled() == 100 * pow2(149),
        5 * (Binary32 { bits: FOUR_FIFTHS }).scaled() - 4 * pow2(149) == pow2(125),
{
    lemma_pow2_adds(23, 126);
    lemma_pow2_adds(21, 128);
    lemma_pow2_adds(25, 124);
    lemma_pow2_adds(24, 125);
    lemma_pow2_adds(20, 129);
    lemma_pow2_adds(17, 132);
    lemma2_to64();
    assert(0x80_0000 * pow2(126) == pow2(149));
    assert(4 * (0x80_0000 * pow2(124)) == pow2(149)) by {
        lemma_pow2_adds(2, 147);
        lemma_pow2_adds(23, 124);
    }
    assert(0x80_0000 * pow2(128) == 4 * pow2(149)) by {
        lemma_pow2_adds(2, 149);
        lemma_pow2_adds(23, 128);
    }
    assert(0xa0_0000 * pow2(129) == 10 * pow2(149)) by {
        assert(pow2(149) == 0x10_0000 * pow2(129));
    }
    assert(0xc8_0000 * pow2(132) == 100 * pow2(149)) by {
        assert(pow2(149) == 0x2_0000 * pow2(132));
    }
    assert(5 * (0xcc_cccd * pow2(125)) - 4 * pow2(149) == pow2(125)) by {
        assert(pow2(149) == 0x100_0000 * pow2(125));
    }
}

/// A clamped number lies between the two limits, is one of the three, and is the number
/// itself if that already lies there, the lower limit below, and the upper limit above.
/// What is not a number stays as it is.
pub proof fn law_clamped(x: Binary32, low: Binary32, high: Binary32)
    requires
        low.at_most(high),
    ensures
        ({
            let c = clamped(x, low, high);
            &&& x.nan() ==> c == x
            &&& !x.nan() ==> low.at_most(c) && c.at_most(high)
            &&& low.at_most(x) && x.at_most(high) ==> c == x
            &&& x.less(low) ==> c == low
            &&& high.less(x) ==> c == high
        }),
{
}

} // verus!
