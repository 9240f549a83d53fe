//! Real-valued quantities as IEEE-754 double-precision bit patterns.
//!
//! The kernel carries reals through and orders them; it does no arithmetic
//! on them. A [`Scalar`] therefore holds the 64 bits of a double, and the
//! comparisons below are those of IEEE-754: a NaN compares with nothing, the
//! two zeros are equal, and otherwise sign and magnitude decide.

use vstd::prelude::*;

verus! {

pub const SIGN_BIT: u64 = 0x8000_0000_0000_0000;

pub const INFINITY_BITS: u64 = 0x7FF0_0000_0000_0000;

/// A double, by its bits.
#[derive(Debug, Clone, Copy, PartialEq, Eq, Hash, Structural)]
pub struct Scalar {
    pub bits: u64,
}

impl Scalar {
    /// The bits without the sign.
    pub open spec fn magnitude(self) -> int {
        if self.bits >= SIGN_BIT {
            self.bits - SIGN_BIT
        } else {
            self.bits as int
        }
    }

    pub open spec fn is_nan(self) -> bool {
        self.magnitude() > INFINITY_BITS
    }

    pub open spec fn is_sign_negative(self) -> bool {
        self.bits >= SIGN_BIT
    }

    /// An integer that orders all values but NaN as the doubles are ordered.
    pub open spec fn order_key(self) -> int {
        if self.is_sign_negative() {
            -self.magnitude()
        } else {
            self.magnitude()
        }
    }

    /// `self < other` as doubles.
    pub open spec fn lt(self, other: Scalar) -> bool {
        !self.is_nan() && !other.is_nan() && self.order_key() < other.order_key()
    }

    /// `self <= other` as doubles.
    pub open spec fn le(self, other: Scalar) -> bool {
        !self.is_nan() && !other.is_nan() && self.order_key() <= other.order_key()
    }

    pub fn from_bits(bits: u64) -> (s: Self)
        ensures
            s.bits == bits,
    {
        Scalar { bits }
    }

    pub fn to_bits(&self) -> (bits: u64)
        ensures
            bits == self.bits,
    {
        self.bits
    }

    /// The value 0.0.
    pub fn zero() -> (s: Self)
        ensures
            s.bits == 0,
    {
        Scalar { bits: 0 }
    }

    /// The value 1.0.
    pub fn one() -> (s: Self)
        ensures
            s.bits == 0x3FF0_0000_0000_0000,
    {
        Scalar { bits: 0x3FF0_0000_0000_0000 }
    }

    /// The value 0.5.
    pub fn half() -> (s: Self)
        ensures
            s.bits == 0x3FE0_0000_0000_0000,
    {
        Scalar { bits: 0x3FE0_0000_0000_0000 }
    }

    /// The value with the other sign.
    pub open spec fn negated(self) -> Scalar {
        if self.bits >= SIGN_BIT {
            Scalar { bits: (self.bits - SIGN_BIT) as u64 }
        } else {
            Scalar { bits: (self.bits + SIGN_BIT) as u64 }
        }
    }

    /// The value with the other sign.
    pub fn negate(&self) -> (r: Scalar)
        ensures
            r == self.negated(),
            r.negated() == *self,
    {
        if self.bits >= SIGN_BIT {
            Scalar { bits: self.bits - SIGN_BIT }
        } else {
            Scalar { bits: self.bits + SIGN_BIT }
        }
    }

    fn magnitude_exec(&self) -> (m: u64)
        ensures
            m == self.magnitude(),
    {
        if self.bits >= SIGN_BIT {
            self.bits - SIGN_BIT
        } else {
            self.bits
        }
    }

    pub fn is_nan_exec(&self) -> (b: bool)
        ensures
            b == self.is_nan(),
    {
        self.magnitude_exec() > INFINITY_BITS
    }

    pub fn lt_exec(&self, other: &Scalar) -> (b: bool)
        ensures
            b == self.lt(*other),
    {
        if self.is_nan_exec() || other.is_nan_exec() {
            return false;
        }
        let a = self.magnitude_exec();
        let b = other.magnitude_exec();
        let a_neg = self.bits >= SIGN_BIT;
        let b_neg = other.bits >= SIGN_BIT;
        if a_neg {
            if b_neg {
                b < a
            } else {
                a > 0 || b > 0
            }
        } else {
            if b_neg {
                false
            } else {
                a < b
            }
        }
    }

    pub fn le_exec(&self, other: &Scalar) -> (b: bool)
        ensures
            b == self.le(*other),
    {
        if self.is_nan_exec() || other.is_nan_exec() {
            return false;
        }
        !other.lt_exec(self)
    }
}

/// A fraction and how often it was doubled.
pub struct Shifted {
    pub fraction: int,
    pub doublings: int,
}

/// The fraction doubled `by` more times, where it is below `bound`.
pub open spec fn raised(s: Shifted, bound: int, by: int, factor: int) -> Shifted {
    if s.fraction < bound {
        Shifted { fraction: s.fraction * factor, doublings: s.doublings + by }
    } else {
        s
    }
}

/// The fraction of a subnormal single, doubled until its leading bit
/// stands where the hidden bit of a normal number stands, and how often
/// that took. Five steps bring the leading bit to the place below, and a
/// last doubling brings it home.
pub open spec fn normalized(fraction: int) -> Shifted {
    let s0 = Shifted { fraction, doublings: 0 };
    let s1 = raised(s0, 0x80, 16, 0x1_0000);
    let s2 = raised(s1, 0x8000, 8, 0x100);
    let s3 = raised(s2, 0x8_0000, 4, 0x10);
    let s4 = raised(s3, 0x20_0000, 2, 4);
    let s5 = raised(s4, 0x40_0000, 1, 2);
    Shifted { fraction: 2 * s5.fraction, doublings: s5.doublings + 1 }
}

/// The bits of the double that has the value of the single with the given
/// bits. A NaN becomes a quiet NaN with the same payload.
pub open spec fn widened(bits: u32) -> int {
    let sign = if bits >= 0x8000_0000 {
        SIGN_BIT as int
    } else {
        0
    };
    let exponent = (bits as int / 0x80_0000) % 0x100;
    let fraction = bits as int % 0x80_0000;
    sign + if exponent == 0xFF {
        if fraction == 0 {
            INFINITY_BITS as int
        } else if fraction >= 0x40_0000 {
            INFINITY_BITS + fraction * 0x2000_0000
        } else {
            INFINITY_BITS + 0x8_0000_0000_0000 + fraction * 0x2000_0000
        }
    } else if exponent == 0 {
        if fraction == 0 {
            0
        } else {
            let s = normalized(fraction);
            (897 - s.doublings) * 0x10_0000_0000_0000 + (s.fraction - 0x80_0000) * 0x2000_0000
        }
    } else {
        (exponent + 896) * 0x10_0000_0000_0000 + fraction * 0x2000_0000
    }
}

impl Scalar {
    /// The double that has the value of the single with the given bits.
    pub fn from_single(bits: u32) -> (s: Self)
        ensures
            s.bits == widened(bits),
    {
        let sign: u64 = if bits >= 0x8000_0000 {
            SIGN_BIT
        } else {
            0
        };
        let exponent: u64 = ((bits / 0x80_0000) % 0x100) as u64;
        let fraction: u64 = (bits % 0x80_0000) as u64;
        let rest: u64 = if exponent == 0xFF {
            if fraction == 0 {
                INFINITY_BITS
            } else if fraction >= 0x40_0000 {
                INFINITY_BITS + fraction * 0x2000_0000
            } else {
                INFINITY_BITS + 0x8_0000_0000_0000 + fraction * 0x2000_0000
            }
        } else if exponent == 0 {
            if fraction == 0 {
                0
            } else {
                let mut f: u64 = fraction;
                let mut doublings: u64 = 0;
                if f < 0x80 {
                    f = f * 0x1_0000;
                    doublings = doublings + 16;
                }
                if f < 0x8000 {
                    f = f * 0x100;
                    doublings = doublings + 8;
                }
                if f < 0x8_0000 {
                    f = f * 0x10;
                    doublings = doublings + 4;
                }
                if f < 0x20_0000 {
                    f = f * 4;
                    doublings = doublings + 2;
                }
                if f < 0x40_0000 {
                    f = f * 2;
                    doublings = doublings + 1;
                }
                f = f * 2;
                doublings = doublings + 1;
                (897 - doublings) * 0x10_0000_0000_0000 + (f - 0x80_0000) * 0x2000_0000
            }
        } else {
            (exponent + 896) * 0x10_0000_0000_0000 + fraction * 0x2000_0000
        };
        Scalar { bits: sign + rest }
    }
}

/// The double 2^-1021, the least whose half is a normal number.
pub const LEAST_HALVED_NORMAL: u64 = 0x0020_0000_0000_0000;

/// The bit that tells a quiet NaN from a signalling one.
pub const QUIET_BIT: u64 = 0x0008_0000_0000_0000;

impl Scalar {
    /// Half the value, rounded to the nearest double, and to the even one
    /// of two that are as near. From 2^-1021 on the exponent is lowered by
    /// one. Below that a double counts multiples of the least double, and
    /// the count is halved. An infinity stays, and a NaN becomes quiet.
    pub open spec fn halved(self) -> Scalar {
        let sign = self.bits - self.magnitude();
        let m = self.magnitude();
        let half: int = if m > INFINITY_BITS {
            if m % (2 * QUIET_BIT) >= QUIET_BIT {
                m
            } else {
                m + QUIET_BIT
            }
        } else if m == INFINITY_BITS {
            m
        } else if m >= LEAST_HALVED_NORMAL {
            m - 0x10_0000_0000_0000
        } else if m % 2 == 1 && (m / 2) % 2 == 1 {
            m / 2 + 1
        } else {
            m / 2
        };
        Scalar { bits: (sign + half) as u64 }
    }

    /// Twice the value. A double below the least normal one counts
    /// multiples of the least double, and the count is doubled. From there
    /// on the exponent is raised by one, and past the greatest double stands
    /// infinity. An infinity stays, and a NaN becomes quiet.
    pub open spec fn doubled(self) -> Scalar {
        let sign = self.bits - self.magnitude();
        let m = self.magnitude();
        let twice: int = if m > INFINITY_BITS {
            if m % (2 * QUIET_BIT) >= QUIET_BIT {
                m
            } else {
                m + QUIET_BIT
            }
        } else if m < 0x10_0000_0000_0000 {
            2 * m
        } else if m + 0x10_0000_0000_0000 >= INFINITY_BITS {
            INFINITY_BITS as int
        } else {
            m + 0x10_0000_0000_0000
        };
        Scalar { bits: (sign + twice) as u64 }
    }

    /// Twice the value.
    pub fn double(&self) -> (r: Scalar)
        ensures
            r == self.doubled(),
    {
        let m = self.magnitude_exec();
        let sign: u64 = self.bits - m;
        let twice: u64 = if m > INFINITY_BITS {
            if m % (2 * QUIET_BIT) >= QUIET_BIT {
                m
            } else {
                m + QUIET_BIT
            }
        } else if m < 0x10_0000_0000_0000 {
            2 * m
        } else if m + 0x10_0000_0000_0000 >= INFINITY_BITS {
            INFINITY_BITS
        } else {
            m + 0x10_0000_0000_0000
        };
        Scalar { bits: sign + twice }
    }

    /// Half the value.
    pub fn halve(&self) -> (r: Scalar)
        ensures
            r == self.halved(),
    {
        let m = self.magnitude_exec();
        let sign: u64 = self.bits - m;
        let half: u64 = if m > INFINITY_BITS {
            if m % (2 * QUIET_BIT) >= QUIET_BIT {
                m
            } else {
                m + QUIET_BIT
            }
        } else if m == INFINITY_BITS {
            m
        } else if m >= LEAST_HALVED_NORMAL {
            m - 0x10_0000_0000_0000
        } else if m % 2 == 1 && (m / 2) % 2 == 1 {
            m / 2 + 1
        } else {
            m / 2
        };
        Scalar { bits: sign + half }
    }
}

/// The bits of the double that has the value of a count below 256: the
/// count is doubled until its leading bit is the eighth, and the exponent
/// is lowered as often.
pub open spec fn counted(n: u8) -> int {
    if n == 0 {
        0
    } else {
        let s0 = Shifted { fraction: n as int, doublings: 0 };
        let s1 = raised(s0, 0x10, 4, 0x10);
        let s2 = raised(s1, 0x40, 2, 4);
        let s3 = raised(s2, 0x80, 1, 2);
        (1030 - s3.doublings) * 0x10_0000_0000_0000 + (s3.fraction - 0x80) * 0x2000_0000_0000
    }
}

impl Scalar {
    /// The double that has the value of the count.
    pub fn from_count(n: u8) -> (s: Self)
        ensures
            s.bits == counted(n),
    {
        if n == 0 {
            return Scalar { bits: 0 };
        }
        let mut f: u64 = n as u64;
        let mut doublings: u64 = 0;
        if f < 0x10 {
            f = f * 0x10;
            doublings = doublings + 4;
        }
        if f < 0x40 {
            f = f * 4;
            doublings = doublings + 2;
        }
        if f < 0x80 {
            f = f * 2;
            doublings = doublings + 1;
        }
        Scalar { bits: (1030 - doublings) * 0x10_0000_0000_0000 + (f - 0x80) * 0x2000_0000_0000 }
    }
}

/// Among values that are not NaN, `lt` is a strict total order up to the
/// equality of the two zeros.
pub proof fn lemma_scalar_order(a: Scalar, b: Scalar, c: Scalar)
    ensures
        !a.lt(a),
        a.lt(b) && b.lt(c) ==> a.lt(c),
        a.lt(b) ==> !b.lt(a),
        !a.is_nan() && !b.is_nan() ==> (a.le(b) <==> !b.lt(a)),
{
}

} // verus!
