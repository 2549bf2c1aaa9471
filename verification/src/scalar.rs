//! Extended fixed-point numbers.
//!
//! A [`Scalar`] is either a signed count of millionths or one of the three
//! non-finite values. `Nan` compares false with everything, and a finite
//! result that does not fit becomes an infinity of the right sign.

use vstd::prelude::*;

verus! {

/// Number of fixed-point units in one whole.
pub const UNITS_PER_ONE: i64 = 1_000_000;

/// An extended number in units of one millionth.
#[derive(Clone, Copy, Debug, PartialEq, Eq, Structural)]
pub enum Scalar {
    Nan,
    NegInf,
    Finite(i64),
    PosInf,
}

/// The quotient `p / den` rounded toward zero.
pub open spec fn toward_zero(p: int, den: int) -> int
    recommends
        den > 0,
{
    if p >= 0 {
        p / den
    } else {
        -((-p) / den)
    }
}

/// The scalar nearest to an unbounded count of units: itself when it fits,
/// otherwise the infinity on its side.
pub open spec fn saturate(v: int) -> Scalar {
    if v < i64::MIN {
        Scalar::NegInf
    } else if v > i64::MAX {
        Scalar::PosInf
    } else {
        Scalar::Finite(v as i64)
    }
}

impl Scalar {
    /// Whether the value is an ordinary number (neither infinite nor `Nan`).
    pub open spec fn finite(self) -> bool {
        self is Finite
    }

    /// Strict order; false whenever either side is `Nan`.
    pub open spec fn lt_spec(self, other: Scalar) -> bool {
        match (self, other) {
            (Scalar::Nan, _) => false,
            (_, Scalar::Nan) => false,
            (Scalar::NegInf, Scalar::NegInf) => false,
            (Scalar::NegInf, _) => true,
            (_, Scalar::NegInf) => false,
            (Scalar::PosInf, _) => false,
            (_, Scalar::PosInf) => true,
            (Scalar::Finite(a), Scalar::Finite(b)) => a < b,
        }
    }

    /// Numeric equality; `Nan` equals nothing, itself included.
    pub open spec fn same(self, other: Scalar) -> bool {
        !(self is Nan) && self == other
    }

    /// Non-strict order; false whenever either side is `Nan`.
    pub open spec fn le_spec(self, other: Scalar) -> bool {
        self.lt_spec(other) || self.same(other)
    }

    /// Difference `self - other`. Opposite infinities subtract to an
    /// infinity, equal infinities to `Nan`.
    pub open spec fn minus(self, other: Scalar) -> Scalar {
        match (self, other) {
            (Scalar::Nan, _) => Scalar::Nan,
            (_, Scalar::Nan) => Scalar::Nan,
            (Scalar::Finite(a), Scalar::Finite(b)) => saturate(a - b),
            (Scalar::PosInf, Scalar::PosInf) => Scalar::Nan,
            (Scalar::NegInf, Scalar::NegInf) => Scalar::Nan,
            (Scalar::PosInf, _) => Scalar::PosInf,
            (Scalar::NegInf, _) => Scalar::NegInf,
            (_, Scalar::PosInf) => Scalar::NegInf,
            (_, Scalar::NegInf) => Scalar::PosInf,
        }
    }

    /// Absolute value.
    pub open spec fn magnitude(self) -> Scalar {
        match self {
            Scalar::Nan => Scalar::Nan,
            Scalar::NegInf => Scalar::PosInf,
            Scalar::PosInf => Scalar::PosInf,
            Scalar::Finite(a) => saturate(if a < 0 { -a } else { a as int }),
        }
    }

    /// The point halfway between two values, rounded down to a whole unit.
    /// Opposite infinities have no midpoint.
    pub open spec fn midpoint_spec(self, other: Scalar) -> Scalar {
        match (self, other) {
            (Scalar::Nan, _) => Scalar::Nan,
            (_, Scalar::Nan) => Scalar::Nan,
            (Scalar::Finite(a), Scalar::Finite(b)) => Scalar::Finite(((a + b) / 2) as i64),
            (Scalar::PosInf, Scalar::NegInf) => Scalar::Nan,
            (Scalar::NegInf, Scalar::PosInf) => Scalar::Nan,
            (Scalar::PosInf, _) => Scalar::PosInf,
            (_, Scalar::PosInf) => Scalar::PosInf,
            (Scalar::NegInf, _) => Scalar::NegInf,
            (_, Scalar::NegInf) => Scalar::NegInf,
        }
    }

    /// Sum `self + other`. Opposite infinities add up to `Nan`.
    pub open spec fn plus(self, other: Scalar) -> Scalar {
        match (self, other) {
            (Scalar::Nan, _) => Scalar::Nan,
            (_, Scalar::Nan) => Scalar::Nan,
            (Scalar::Finite(a), Scalar::Finite(b)) => saturate(a + b),
            (Scalar::PosInf, Scalar::NegInf) => Scalar::Nan,
            (Scalar::NegInf, Scalar::PosInf) => Scalar::Nan,
            (Scalar::PosInf, _) => Scalar::PosInf,
            (Scalar::NegInf, _) => Scalar::NegInf,
            (_, Scalar::PosInf) => Scalar::PosInf,
            (_, Scalar::NegInf) => Scalar::NegInf,
        }
    }

    /// Product with the ratio `num / den`, rounded toward zero. An infinity
    /// times zero is `Nan`.
    pub open spec fn scaled_spec(self, num: int, den: int) -> Scalar
        recommends
            den > 0,
    {
        match self {
            Scalar::Nan => Scalar::Nan,
            Scalar::Finite(v) => saturate(toward_zero(v * num, den)),
            Scalar::PosInf => if num > 0 {
                Scalar::PosInf
            } else if num < 0 {
                Scalar::NegInf
            } else {
                Scalar::Nan
            },
            Scalar::NegInf => if num > 0 {
                Scalar::NegInf
            } else if num < 0 {
                Scalar::PosInf
            } else {
                Scalar::Nan
            },
        }
    }

    /// Quotient `self / other`, rounded toward zero. Zero by zero and an
    /// infinity by an infinity are `Nan`; anything else by zero is an
    /// infinity of the dividend's sign.
    pub open spec fn quotient(self, other: Scalar) -> Scalar {
        match (self, other) {
            (Scalar::Nan, _) => Scalar::Nan,
            (_, Scalar::Nan) => Scalar::Nan,
            (Scalar::Finite(a), Scalar::Finite(b)) => if b == 0 {
                if a > 0 {
                    Scalar::PosInf
                } else if a < 0 {
                    Scalar::NegInf
                } else {
                    Scalar::Nan
                }
            } else if b > 0 {
                saturate(toward_zero(a * 1_000_000, b as int))
            } else {
                saturate(toward_zero(-(a * 1_000_000), -b))
            },
            (Scalar::Finite(_), _) => Scalar::Finite(0),
            (Scalar::PosInf, Scalar::Finite(b)) => if b >= 0 {
                Scalar::PosInf
            } else {
                Scalar::NegInf
            },
            (Scalar::NegInf, Scalar::Finite(b)) => if b >= 0 {
                Scalar::NegInf
            } else {
                Scalar::PosInf
            },
            _ => Scalar::Nan,
        }
    }

    /// Product `self * other`, rounded toward zero. Zero times an infinity
    /// is `Nan`.
    pub open spec fn product(self, other: Scalar) -> Scalar {
        match (self, other) {
            (Scalar::Nan, _) => Scalar::Nan,
            (_, Scalar::Nan) => Scalar::Nan,
            (Scalar::Finite(a), Scalar::Finite(b)) => saturate(toward_zero(a * b, 1_000_000)),
            (Scalar::Finite(a), inf) => inf.scaled_spec(a as int, 1),
            (inf, Scalar::Finite(b)) => inf.scaled_spec(b as int, 1),
            (Scalar::PosInf, inf) => inf,
            (Scalar::NegInf, Scalar::PosInf) => Scalar::NegInf,
            (Scalar::NegInf, Scalar::NegInf) => Scalar::PosInf,
        }
    }

    /// The value kept between zero and one; `Nan` stays `Nan`.
    pub open spec fn clamped_to_unit(self) -> Scalar {
        match self {
            Scalar::Nan => Scalar::Nan,
            Scalar::NegInf => Scalar::Finite(0),
            Scalar::PosInf => Scalar::Finite(1_000_000),
            Scalar::Finite(v) => if v < 0 {
                Scalar::Finite(0)
            } else if v > 1_000_000 {
                Scalar::Finite(1_000_000)
            } else {
                self
            },
        }
    }

    /// The lesser of two values; if one is `Nan`, the other.
    pub open spec fn lesser_spec(self, other: Scalar) -> Scalar {
        if self is Nan {
            other
        } else if other is Nan {
            self
        } else if other.lt_spec(self) {
            other
        } else {
            self
        }
    }

    /// `|self - other| > tolerance`: the two values differ by more than the
    /// tolerance. False whenever the difference or the tolerance is `Nan`.
    pub open spec fn differs_beyond(self, other: Scalar, tolerance: Scalar) -> bool {
        tolerance.lt_spec(self.minus(other).magnitude())
    }

    /// Whether the value is an ordinary number.
    pub fn is_finite(self) -> (r: bool)
        ensures
            r == self.finite(),
    {
        match self {
            Scalar::Finite(_) => true,
            _ => false,
        }
    }

    /// Whether `self` is less than `other`.
    pub fn lt(self, other: Scalar) -> (r: bool)
        ensures
            r == self.lt_spec(other),
    {
        match (self, other) {
            (Scalar::Nan, _) => false,
            (_, Scalar::Nan) => false,
            (Scalar::NegInf, Scalar::NegInf) => false,
            (Scalar::NegInf, _) => true,
            (_, Scalar::NegInf) => false,
            (Scalar::PosInf, _) => false,
            (_, Scalar::PosInf) => true,
            (Scalar::Finite(a), Scalar::Finite(b)) => a < b,
        }
    }

    /// Whether `self` is greater than `other`.
    pub fn gt(self, other: Scalar) -> (r: bool)
        ensures
            r == other.lt_spec(self),
    {
        other.lt(self)
    }

    /// Whether `self` is less than or equal to `other`.
    pub fn le(self, other: Scalar) -> (r: bool)
        ensures
            r == self.le_spec(other),
    {
        match (self, other) {
            (Scalar::Nan, _) => false,
            (_, Scalar::Nan) => false,
            (Scalar::NegInf, _) => true,
            (_, Scalar::NegInf) => false,
            (_, Scalar::PosInf) => true,
            (Scalar::PosInf, _) => false,
            (Scalar::Finite(a), Scalar::Finite(b)) => a <= b,
        }
    }

    /// Whether `self` is greater than or equal to `other`.
    pub fn ge(self, other: Scalar) -> (r: bool)
        ensures
            r == other.le_spec(self),
    {
        other.le(self)
    }

    /// Subtracts `other`.
    pub fn sub(self, other: Scalar) -> (r: Scalar)
        ensures
            r == self.minus(other),
    {
        match (self, other) {
            (Scalar::Nan, _) => Scalar::Nan,
            (_, Scalar::Nan) => Scalar::Nan,
            (Scalar::Finite(a), Scalar::Finite(b)) => {
                let d: i128 = a as i128 - b as i128;
                narrow(d)
            },
            (Scalar::PosInf, Scalar::PosInf) => Scalar::Nan,
            (Scalar::NegInf, Scalar::NegInf) => Scalar::Nan,
            (Scalar::PosInf, _) => Scalar::PosInf,
            (Scalar::NegInf, _) => Scalar::NegInf,
            (_, Scalar::PosInf) => Scalar::NegInf,
            (_, Scalar::NegInf) => Scalar::PosInf,
        }
    }

    /// The absolute value.
    pub fn abs(self) -> (r: Scalar)
        ensures
            r == self.magnitude(),
    {
        match self {
            Scalar::Nan => Scalar::Nan,
            Scalar::NegInf => Scalar::PosInf,
            Scalar::PosInf => Scalar::PosInf,
            Scalar::Finite(a) => {
                let wide: i128 = a as i128;
                if a < 0 {
                    narrow(0 - wide)
                } else {
                    narrow(wide)
                }
            },
        }
    }

    /// The point halfway to `other`, rounded down.
    pub fn midpoint(self, other: Scalar) -> (r: Scalar)
        ensures
            r == self.midpoint_spec(other),
    {
        match (self, other) {
            (Scalar::Nan, _) => Scalar::Nan,
            (_, Scalar::Nan) => Scalar::Nan,
            (Scalar::Finite(a), Scalar::Finite(b)) => {
                let sum: i128 = a as i128 + b as i128;
                // Shift into the non-negative range so that the division
                // rounds down for negative sums as well.
                let lifted: i128 = sum + 0x1_0000_0000_0000_0000i128;
                let half: i128 = lifted / 2 - 0x8000_0000_0000_0000i128;
                Scalar::Finite(half as i64)
            },
            (Scalar::PosInf, Scalar::NegInf) => Scalar::Nan,
            (Scalar::NegInf, Scalar::PosInf) => Scalar::Nan,
            (Scalar::PosInf, _) => Scalar::PosInf,
            (_, Scalar::PosInf) => Scalar::PosInf,
            (Scalar::NegInf, _) => Scalar::NegInf,
            (_, Scalar::NegInf) => Scalar::NegInf,
        }
    }

    /// Adds `other`.
    pub fn add(self, other: Scalar) -> (r: Scalar)
        ensures
            r == self.plus(other),
    {
        match (self, other) {
            (Scalar::Nan, _) => Scalar::Nan,
            (_, Scalar::Nan) => Scalar::Nan,
            (Scalar::Finite(a), Scalar::Finite(b)) => {
                let sum: i128 = a as i128 + b as i128;
                narrow(sum)
            },
            (Scalar::PosInf, Scalar::NegInf) => Scalar::Nan,
            (Scalar::NegInf, Scalar::PosInf) => Scalar::Nan,
            (Scalar::PosInf, _) => Scalar::PosInf,
            (Scalar::NegInf, _) => Scalar::NegInf,
            (_, Scalar::PosInf) => Scalar::PosInf,
            (_, Scalar::NegInf) => Scalar::NegInf,
        }
    }

    /// Multiplies by the ratio `num / den`, rounding toward zero.
    pub fn scaled(self, num: i64, den: i64) -> (r: Scalar)
        requires
            den > 0,
        ensures
            r == self.scaled_spec(num as int, den as int),
    {
        match self {
            Scalar::Nan => Scalar::Nan,
            Scalar::Finite(v) => {
                assert(-0x4000_0000_0000_0000_0000_0000_0000_0000 <= v * num
                    <= 0x4000_0000_0000_0000_0000_0000_0000_0000) by (nonlinear_arith)
                    requires
                        -0x8000_0000_0000_0000 <= v <= 0x8000_0000_0000_0000,
                        -0x8000_0000_0000_0000 <= num <= 0x8000_0000_0000_0000,
                ;
                let p: i128 = (v as i128) * (num as i128);
                if p >= 0 {
                    let q: i128 = p / (den as i128);
                    narrow(q)
                } else {
                    let m: i128 = 0 - p;
                    let q: i128 = m / (den as i128);
                    assert(0 <= q <= m) by (nonlinear_arith)
                        requires
                            q == (m as int) / (den as int),
                            m >= 0,
                            den > 0,
                    ;
                    narrow(0 - q)
                }
            },
            Scalar::PosInf => if num > 0 {
                Scalar::PosInf
            } else if num < 0 {
                Scalar::NegInf
            } else {
                Scalar::Nan
            },
            Scalar::NegInf => if num > 0 {
                Scalar::NegInf
            } else if num < 0 {
                Scalar::PosInf
            } else {
                Scalar::Nan
            },
        }
    }

    /// Divides by `other`, rounding toward zero.
    pub fn div(self, other: Scalar) -> (r: Scalar)
        ensures
            r == self.quotient(other),
    {
        match (self, other) {
            (Scalar::Nan, _) => Scalar::Nan,
            (_, Scalar::Nan) => Scalar::Nan,
            (Scalar::Finite(a), Scalar::Finite(b)) => {
                if b == 0 {
                    if a > 0 {
                        Scalar::PosInf
                    } else if a < 0 {
                        Scalar::NegInf
                    } else {
                        Scalar::Nan
                    }
                } else {
                    let wide: i128 = (a as i128) * 1_000_000;
                    let (p, den): (i128, i128) = if b > 0 {
                        (wide, b as i128)
                    } else {
                        (0 - wide, 0 - (b as i128))
                    };
                    if p >= 0 {
                        let q: i128 = p / den;
                        narrow(q)
                    } else {
                        let m: i128 = 0 - p;
                        let q: i128 = m / den;
                        assert(0 <= q <= m) by (nonlinear_arith)
                            requires
                                q == (m as int) / (den as int),
                                m >= 0,
                                den > 0,
                        ;
                        narrow(0 - q)
                    }
                }
            },
            (Scalar::Finite(_), _) => Scalar::Finite(0),
            (Scalar::PosInf, Scalar::Finite(b)) => if b >= 0 {
                Scalar::PosInf
            } else {
                Scalar::NegInf
            },
            (Scalar::NegInf, Scalar::Finite(b)) => if b >= 0 {
                Scalar::NegInf
            } else {
                Scalar::PosInf
            },
            _ => Scalar::Nan,
        }
    }

    /// Multiplies by `other`, rounding toward zero.
    pub fn mul(self, other: Scalar) -> (r: Scalar)
        ensures
            r == self.product(other),
    {
        match (self, other) {
            (Scalar::Nan, _) => Scalar::Nan,
            (_, Scalar::Nan) => Scalar::Nan,
            (Scalar::Finite(a), Scalar::Finite(b)) => self.scaled(b, 1_000_000),
            (Scalar::Finite(a), inf) => inf.scaled(a, 1),
            (inf, Scalar::Finite(b)) => inf.scaled(b, 1),
            (Scalar::PosInf, inf) => inf,
            (Scalar::NegInf, Scalar::PosInf) => Scalar::NegInf,
            (Scalar::NegInf, Scalar::NegInf) => Scalar::PosInf,
        }
    }

    /// Keeps the value between zero and one.
    pub fn clamp_to_unit(self) -> (r: Scalar)
        ensures
            r == self.clamped_to_unit(),
    {
        match self {
            Scalar::Nan => Scalar::Nan,
            Scalar::NegInf => Scalar::Finite(0),
            Scalar::PosInf => Scalar::Finite(1_000_000),
            Scalar::Finite(v) => if v < 0 {
                Scalar::Finite(0)
            } else if v > 1_000_000 {
                Scalar::Finite(1_000_000)
            } else {
                self
            },
        }
    }

    /// The lesser of `self` and `other`, passing over `Nan`.
    pub fn lesser(self, other: Scalar) -> (r: Scalar)
        ensures
            r == self.lesser_spec(other),
    {
        match (self, other) {
            (Scalar::Nan, _) => other,
            (_, Scalar::Nan) => self,
            _ => if other.lt(self) {
                other
            } else {
                self
            },
        }
    }

    /// Whether `self` and `other` differ by more than the tolerance.
    pub fn exceeds(self, other: Scalar, tolerance: Scalar) -> (r: bool)
        ensures
            r == self.differs_beyond(other, tolerance),
    {
        self.sub(other).abs().gt(tolerance)
    }
}

/// Brings a wide count of units back into a scalar.
pub fn narrow(v: i128) -> (r: Scalar)
    ensures
        r == saturate(v as int),
{
    if v < i64::MIN as i128 {
        Scalar::NegInf
    } else if v > i64::MAX as i128 {
        Scalar::PosInf
    } else {
        Scalar::Finite(v as i64)
    }
}

/// A value never differs from itself by more than a tolerance.
pub proof fn lemma_no_self_difference(a: Scalar, tolerance: Scalar)
    requires
        !tolerance.lt_spec(Scalar::Finite(0)),
    ensures
        !a.differs_beyond(a, tolerance),
{
}

} // verus!
