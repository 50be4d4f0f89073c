//! Single-precision numbers, carried by their IEEE 754 bit patterns: the
//! orders that hold among them, and what follows from order alone.

use vstd::prelude::*;
use vstd::arithmetic::power2::*;

verus! {

/// A single-precision number, held as the bits of its binary32 encoding.
#[derive(Clone, Copy, Debug, PartialEq, Eq, Structural)]
pub struct Single {
    pub bits: u32,
}

impl Single {
    /// The bits without the sign.
    pub open spec fn magnitude(self) -> int {
        self.bits as int % 0x8000_0000
    }

    /// Whether the sign bit is set.
    pub open spec fn negative(self) -> bool {
        self.bits >= 0x8000_0000
    }

    /// Whether the bits encode no number.
    pub open spec fn is_nan(self) -> bool {
        self.magnitude() > 0x7f80_0000
    }

    /// Whether the bits encode a number that is not infinite.
    pub open spec fn finite(self) -> bool {
        self.magnitude() < 0x7f80_0000
    }

    /// The place of a number in the order of numbers; both zeros share one.
    pub open spec fn place(self) -> int {
        if self.negative() {
            -self.magnitude()
        } else {
            self.magnitude()
        }
    }

    /// Whether one number is less than another; false where either is no
    /// number.
    pub open spec fn lt(self, other: Single) -> bool {
        !self.is_nan() && !other.is_nan() && self.place() < other.place()
    }

    /// Whether one number is at least another; false where either is no
    /// number.
    pub open spec fn ge(self, other: Single) -> bool {
        !self.is_nan() && !other.is_nan() && self.place() >= other.place()
    }

    /// The place of a bit pattern in the total order of all bit patterns: the
    /// negative ones, the larger magnitudes first, then the others.
    pub open spec fn rank(self) -> int {
        if self.negative() {
            -1 - self.magnitude()
        } else {
            self.magnitude()
        }
    }

    /// A number held between two bounds.
    pub open spec fn clamped(self, low: Single, high: Single) -> Single {
        if self.lt(low) {
            low
        } else if high.lt(self) {
            high
        } else {
            self
        }
    }

    /// What a finite magnitude encodes, counted in the smallest steps that the
    /// encoding has.
    pub open spec fn steps(magnitude: int) -> int {
        let exponent = magnitude / 0x80_0000;
        let fraction = magnitude % 0x80_0000;
        if exponent == 0 {
            fraction
        } else {
            (0x80_0000 + fraction) * pow2((exponent - 1) as nat) as int
        }
    }

    /// The value of a finite number, counted in the smallest steps that the
    /// encoding has.
    pub open spec fn value(self) -> int {
        if self.negative() {
            -Self::steps(self.magnitude())
        } else {
            Self::steps(self.magnitude())
        }
    }

    fn magnitude_bits(self) -> (r: u32)
        ensures
            r == self.magnitude(),
    {
        self.bits % 0x8000_0000
    }

    /// Whether the number is neither infinite nor missing.
    pub fn is_finite(self) -> (r: bool)
        ensures
            r == self.finite(),
    {
        self.magnitude_bits() < 0x7f80_0000
    }

    /// Whether this number is less than another.
    pub fn less(self, other: Single) -> (r: bool)
        ensures
            r == self.lt(other),
    {
        let a: u32 = self.magnitude_bits();
        let b: u32 = other.magnitude_bits();
        if a > 0x7f80_0000 || b > 0x7f80_0000 {
            return false;
        }
        if self.bits >= 0x8000_0000 {
            if other.bits >= 0x8000_0000 {
                a > b
            } else {
                a > 0 || b > 0
            }
        } else {
            other.bits < 0x8000_0000 && a < b
        }
    }

    /// Whether this number is at least another.
    pub fn at_least(self, other: Single) -> (r: bool)
        ensures
            r == self.ge(other),
    {
        let a: u32 = self.magnitude_bits();
        let b: u32 = other.magnitude_bits();
        a <= 0x7f80_0000 && b <= 0x7f80_0000 && !self.less(other)
    }

    /// This number, held between two bounds.
    pub fn clamp(self, low: Single, high: Single) -> (r: Single)
        ensures
            r == self.clamped(low, high),
    {
        if self.less(low) {
            low
        } else if high.less(self) {
            high
        } else {
            self
        }
    }

    /// The place of the bit pattern in the total order.
    pub fn total_rank(self) -> (r: i64)
        ensures
            r == self.rank(),
            -0x8000_0000 <= r < 0x8000_0000,
    {
        let m: i64 = self.magnitude_bits() as i64;
        if self.bits >= 0x8000_0000 {
            -1 - m
        } else {
            m
        }
    }

    /// The bit pattern at a place in the total order.
    pub fn of_rank(rank: i64) -> (r: Single)
        requires
            -0x8000_0000 <= rank < 0x8000_0000,
        ensures
            r.rank() == rank,
    {
        if rank >= 0 {
            Single { bits: rank as u32 }
        } else {
            Single { bits: 0x8000_0000u32 + ((-1 - rank) as u32) }
        }
    }
}

/// Different bit patterns have different places in the total order.
pub proof fn rank_is_injective(a: Single, b: Single)
    requires
        a.rank() == b.rank(),
    ensures
        a == b,
{
}

/// The place of a number says its value: of two finite numbers, the one whose
/// bits come first in the order has the smaller value, and equal places mean
/// equal values.
pub proof fn place_follows_value(a: Single, b: Single)
    requires
        a.finite(),
        b.finite(),
    ensures
        a.place() < b.place() <==> a.value() < b.value(),
        a.place() == b.place() <==> a.value() == b.value(),
{
    let (m, n) = (a.magnitude(), b.magnitude());
    if m < n {
        steps_grow(m, n);
    }
    if n < m {
        steps_grow(n, m);
    }
    steps_not_negative(m);
    steps_not_negative(n);
    if m > 0 {
        steps_grow(0, m);
    }
    if n > 0 {
        steps_grow(0, n);
    }
}

proof fn steps_not_negative(m: int)
    requires
        0 <= m,
    ensures
        Single::steps(m) >= 0,
        m == 0 ==> Single::steps(m) == 0,
{
    let e = m / 0x80_0000;
    let f = m % 0x80_0000;
    if e > 0 {
        lemma_pow2_pos((e - 1) as nat);
        let p = pow2((e - 1) as nat) as int;
        assert((0x80_0000 + f) * p >= 0) by (nonlinear_arith)
            requires
                f >= 0,
                p > 0,
        ;
    }
}

/// A larger magnitude encodes a larger number of steps.
proof fn steps_grow(m: int, n: int)
    requires
        0 <= m < n,
    ensures
        Single::steps(m) < Single::steps(n),
{
    let (e, f) = (m / 0x80_0000, m % 0x80_0000);
    let (g, h) = (n / 0x80_0000, n % 0x80_0000);
    if g > 0 {
        lemma_pow2_pos((g - 1) as nat);
        let q = pow2((g - 1) as nat) as int;
        if e == g {
            assert((0x80_0000 + f) * q < (0x80_0000 + h) * q) by (nonlinear_arith)
                requires
                    f < h,
                    q > 0,
            ;
        } else {
            assert((0x80_0000 + h) * q >= 0x80_0000 * q) by (nonlinear_arith)
                requires
                    h >= 0,
                    q > 0,
            ;
            if e == 0 {
                assert(0x80_0000 * q >= 0x80_0000) by (nonlinear_arith)
                    requires
                        q > 0,
                ;
            } else {
                let p = pow2((e - 1) as nat) as int;
                lemma_pow2_pos((e - 1) as nat);
                lemma_pow2_unfold(e as nat);
                assert(pow2(e as nat) == 2 * p);
                if e < g - 1 {
                    lemma_pow2_strictly_increases(e as nat, (g - 1) as nat);
                }
                assert((0x80_0000 + f) * p < 0x80_0000 * q) by (nonlinear_arith)
                    requires
                        0 <= f < 0x80_0000,
                        p > 0,
                        2 * p <= q,
                ;
            }
        }
    }
}

/// The exposure held to the range of its slider, from -3 to +4 stops.
pub open spec fn ev_clamped(ev: Single) -> Single {
    ev.clamped(Single { bits: 0xc040_0000 }, Single { bits: 0x4080_0000 })
}

/// Holds an exposure to the range of its slider, from -3 to +4 stops.
pub fn clamp_ev(ev: Single) -> (r: Single)
    ensures
        r == ev_clamped(ev),
{
    ev.clamp(Single { bits: 0xc040_0000 }, Single { bits: 0x4080_0000 })
}

/// A curve power held to the range of its slider, from a quarter to four.
pub open spec fn curve_power_clamped(power: Single) -> Single {
    power.clamped(Single { bits: 0x3e80_0000 }, Single { bits: 0x4080_0000 })
}

/// Holds a curve power to the range of its slider, from a quarter to four.
pub fn clamp_curve_power(power: Single) -> (r: Single)
    ensures
        r == curve_power_clamped(power),
{
    power.clamp(Single { bits: 0x3e80_0000 }, Single { bits: 0x4080_0000 })
}

/// A number that is held between two ordered bounds lies between them, unless
/// it is no number at all, and holding it again changes nothing.
pub proof fn clamping_bounds_a_number(x: Single, low: Single, high: Single)
    requires
        !low.is_nan(),
        high.ge(low),
    ensures
        !x.is_nan() ==> x.clamped(low, high).ge(low) && high.ge(x.clamped(low, high)),
        x.is_nan() ==> x.clamped(low, high) == x,
        x.clamped(low, high).clamped(low, high) == x.clamped(low, high),
{
}

} // verus!
