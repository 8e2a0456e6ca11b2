//! IEEE-754 bit patterns: what the develop rules need to know of a recipe's
//! numbers (is it zero, is it finite, which double does it widen to) without
//! doing floating-point arithmetic.

use vstd::arithmetic::power2::*;
use vstd::prelude::*;

verus! {

/// A single-precision number, by its bit pattern.
#[derive(Clone, Copy, Debug, PartialEq, Eq, Structural)]
pub struct Single {
    /// Sign, exponent and mantissa bits, most significant first.
    pub bits: u32,
}

/// A double-precision number, by its bit pattern.
#[derive(Clone, Copy, Debug, PartialEq, Eq, Structural)]
pub struct Double {
    /// Sign, exponent and mantissa bits, most significant first.
    pub bits: u64,
}

/// The bit pattern of the single `1`.
pub const ONE: u32 = 0x3f80_0000;

/// The bit pattern of the single `0.25`.
pub const QUARTER: u32 = 0x3e80_0000;

/// The bit pattern of the single `0.5`.
pub const HALF: u32 = 0x3f00_0000;

/// The bit pattern of the single `0.75`.
pub const THREE_QUARTERS: u32 = 0x3f40_0000;

/// The bit pattern of the single `50`.
pub const FIFTY: u32 = 0x4248_0000;

/// How often `m` must double to reach the normal single-precision mantissa
/// range.
pub open spec fn normal_shift(m: nat) -> nat
    decreases 0x100_0000 - m,
{
    if m == 0 || m >= 0x80_0000 {
        0
    } else {
        1 + normal_shift(2 * m)
    }
}

impl Single {
    /// Whether the sign bit is set.
    pub open spec fn negative(self) -> bool {
        self.bits >= 0x8000_0000
    }

    /// The biased exponent field.
    pub open spec fn exponent(self) -> nat {
        ((self.bits as nat) / 0x80_0000) % 0x100
    }

    /// The mantissa field.
    pub open spec fn mantissa(self) -> nat {
        (self.bits as nat) % 0x80_0000
    }

    /// Not an infinity and not a NaN.
    pub open spec fn finite(self) -> bool {
        self.exponent() < 0xff
    }

    /// Not a number.
    pub open spec fn nan(self) -> bool {
        self.exponent() == 0xff && self.mantissa() != 0
    }

    /// Compares equal to zero (either sign).
    pub open spec fn zero(self) -> bool {
        self.bits % 0x8000_0000 == 0
    }

    /// The absolute value of a finite number, as a multiple of `2^-149`.
    pub open spec fn magnitude(self) -> nat {
        if self.exponent() == 0 {
            self.mantissa()
        } else {
            (0x80_0000 + self.mantissa()) * pow2((self.exponent() - 1) as nat)
        }
    }

    /// The biased exponent of the double with the same value.
    pub open spec fn double_exponent(self) -> nat {
        if self.exponent() == 0xff {
            0x7ff
        } else if self.exponent() > 0 {
            self.exponent() + 896
        } else if self.mantissa() == 0 {
            0
        } else {
            (897 - normal_shift(self.mantissa())) as nat
        }
    }

    /// The mantissa of the double with the same value.
    pub open spec fn double_mantissa(self) -> nat {
        if self.exponent() > 0 || self.mantissa() == 0 {
            self.mantissa() * 0x2000_0000
        } else {
            ((self.mantissa() * pow2(normal_shift(self.mantissa())) - 0x80_0000) * 0x2000_0000)
                as nat
        }
    }

    /// The double that this number widens to.
    pub open spec fn as_double(self) -> Double {
        let sign: int = if self.negative() { 0x8000_0000_0000_0000 } else { 0 };
        Double {
            bits: (sign + self.double_exponent() * 0x10_0000_0000_0000 + self.double_mantissa())
                as u64,
        }
    }

    /// Whether the number compares equal to zero.
    pub fn is_zero(&self) -> (r: bool)
        ensures
            r == self.zero(),
    {
        self.bits % 0x8000_0000 == 0
    }

    /// Whether the number is neither an infinity nor a NaN.
    pub fn is_finite(&self) -> (r: bool)
        ensures
            r == self.finite(),
    {
        (self.bits / 0x80_0000) % 0x100 < 0xff
    }

    /// Whether the number compares less than or equal to zero.
    pub fn is_at_most_zero(&self) -> (r: bool)
        ensures
            r == (self.zero() || (self.negative() && !self.nan())),
    {
        let exponent: u32 = (self.bits / 0x80_0000) % 0x100;
        let mantissa: u32 = self.bits % 0x80_0000;
        let nan: bool = exponent == 0xff && mantissa != 0;
        self.bits % 0x8000_0000 == 0 || (self.bits >= 0x8000_0000 && !nan)
    }

    /// The same number in double precision.
    pub fn widen(&self) -> (r: Double)
        ensures
            r == self.as_double(),
    {
        let negative: bool = self.bits >= 0x8000_0000;
        let exponent: u64 = ((self.bits / 0x80_0000) % 0x100) as u64;
        let mantissa: u64 = (self.bits % 0x80_0000) as u64;
        let sign: u64 = if negative { 0x8000_0000_0000_0000 } else { 0 };
        if exponent == 0xff {
            return Double { bits: sign + 0x7ff * 0x10_0000_0000_0000 + mantissa * 0x2000_0000 };
        }
        if exponent > 0 {
            return Double {
                bits: sign + (exponent + 896) * 0x10_0000_0000_0000 + mantissa * 0x2000_0000,
            };
        }
        if mantissa == 0 {
            return Double { bits: sign };
        }
        let mut shifted: u64 = mantissa;
        let mut shift: u64 = 0;
        proof {
            lemma2_to64();
            assert(mantissa * pow2(0) == mantissa) by {
                lemma2_to64();
            }
        }
        while shifted < 0x80_0000
            invariant
                0 < mantissa < 0x80_0000,
                0 < shifted < 0x100_0000,
                shift <= 23,
                shifted == mantissa * pow2(shift as nat),
                normal_shift(mantissa as nat) == shift + normal_shift(shifted as nat),
                shifted >= pow2(shift as nat),
            decreases 0x100_0000 - shifted,
        {
            proof {
                lemma_pow2_unfold((shift + 1) as nat);
                lemma2_to64();
                assert(mantissa * (2 * pow2(shift as nat)) == 2 * (mantissa * pow2(shift as nat)))
                    by (nonlinear_arith);
                if shift >= 23 {
                    assert(pow2(shift as nat) >= 0x80_0000);
                }
            }
            shifted = shifted * 2;
            shift = shift + 1;
        }
        Double {
            bits: sign + (897 - shift) * 0x10_0000_0000_0000 + (shifted - 0x80_0000) * 0x2000_0000,
        }
    }
}

impl Double {
    /// Whether the sign bit is set.
    pub open spec fn negative(self) -> bool {
        self.bits >= 0x8000_0000_0000_0000
    }

    /// The biased exponent field.
    pub open spec fn exponent(self) -> nat {
        ((self.bits as nat) / 0x10_0000_0000_0000) % 0x800
    }

    /// The mantissa field.
    pub open spec fn mantissa(self) -> nat {
        (self.bits as nat) % 0x10_0000_0000_0000
    }

    /// Not an infinity and not a NaN.
    pub open spec fn finite(self) -> bool {
        self.exponent() < 0x7ff
    }

    /// The absolute value of a finite number, as a multiple of `2^-1074`.
    pub open spec fn magnitude(self) -> nat {
        if self.exponent() == 0 {
            self.mantissa()
        } else {
            (0x10_0000_0000_0000 + self.mantissa()) * pow2((self.exponent() - 1) as nat)
        }
    }

    /// Whether the number is neither an infinity nor a NaN.
    pub fn is_finite(&self) -> (r: bool)
        ensures
            r == self.finite(),
    {
        (self.bits / 0x10_0000_0000_0000) % 0x800 < 0x7ff
    }
}

/// Doubling `m` to the normal range lands inside it.
proof fn lemma_normal_shift(m: nat)
    requires
        0 < m < 0x100_0000,
    ensures
        0x80_0000 <= m * pow2(normal_shift(m)) < 0x100_0000,
        m >= 0x80_0000 || normal_shift(m) >= 1,
        m >= 1 ==> normal_shift(m) <= 23,
        normal_shift(m) < 24,
    decreases 0x100_0000 - m,
{
    lemma2_to64();
    if m < 0x80_0000 {
        lemma_normal_shift(2 * m);
        let k = normal_shift(2 * m);
        lemma_pow2_unfold(k + 1);
        assert(m * (2 * pow2(k)) == (2 * m) * pow2(k)) by (nonlinear_arith);
        if normal_shift(m) >= 24 {
            lemma_pow2_adds(24, (normal_shift(m) - 24) as nat);
            lemma_pow2_pos((normal_shift(m) - 24) as nat);
            assert(m * pow2(normal_shift(m)) >= 0x100_0000) by (nonlinear_arith)
                requires
                    m >= 1,
                    pow2(normal_shift(m)) == 0x100_0000 * pow2((normal_shift(m) - 24) as nat),
                    pow2((normal_shift(m) - 24) as nat) > 0,
            ;
        }
    } else {
        assert(m * pow2(0) == m);
    }
}

/// The fields of a widened number are the ones it was put together from.
pub proof fn lemma_double_fields(s: Single)
    ensures
        s.as_double().negative() == s.negative(),
        s.as_double().exponent() == s.double_exponent(),
        s.as_double().mantissa() == s.double_mantissa(),
        s.double_exponent() <= 0x7ff,
{
    let sign: int = if s.negative() { 0x8000_0000_0000_0000 } else { 0 };
    let e = s.double_exponent();
    let m = s.double_mantissa();
    if s.exponent() == 0 && s.mantissa() != 0 {
        lemma_normal_shift(s.mantissa());
    }
    assert(0 <= m < 0x10_0000_0000_0000);
    let bits = sign + e * 0x10_0000_0000_0000 + m;
    assert(bits as u64 == bits);
    assert((bits / 0x10_0000_0000_0000) % 0x800 == e);
}

/// Widening keeps the sign and the exact value, finite numbers stay finite and
/// the others do not become finite.
pub proof fn law_widening_is_exact(s: Single)
    ensures
        s.as_double().finite() == s.finite(),
        s.as_double().negative() == s.negative(),
        s.finite() ==> s.as_double().magnitude() == s.magnitude() * pow2(925),
{
    lemma_double_fields(s);
    lemma2_to64();
    let d = s.as_double();
    if s.exponent() == 0 && s.mantissa() != 0 {
        let m = s.mantissa();
        let k = normal_shift(m);
        lemma_normal_shift(m);
        let e = (896 - k) as nat;
        assert(d.magnitude() == (m * pow2(k)) * 0x2000_0000 * pow2(e)) by {
            assert(0x10_0000_0000_0000 + (m * pow2(k) - 0x80_0000) * 0x2000_0000 == (m * pow2(k))
                * 0x2000_0000) by (nonlinear_arith);
        }
        lemma_pow2_adds(k, 29);
        lemma_pow2_adds(k + 29, e);
        assert((m * pow2(k)) * 0x2000_0000 * pow2(e) == m * (pow2(k) * 0x2000_0000 * pow2(e)))
            by (nonlinear_arith);
    } else if s.finite() && s.exponent() > 0 {
        let m = s.mantissa();
        let e = s.exponent();
        lemma_pow2_adds(29, (e + 895) as nat);
        lemma_pow2_adds((e - 1) as nat, 925);
        let a = pow2((e + 895) as nat);
        let b = pow2((e - 1) as nat);
        assert((0x10_0000_0000_0000 + m * 0x2000_0000) * a == (0x80_0000 + m) * (0x2000_0000 * a))
            by (nonlinear_arith);
        assert((0x80_0000 + m) * b * pow2(925) == (0x80_0000 + m) * (b * pow2(925)))
            by (nonlinear_arith);
    } else if s.finite() {
        assert(0 * pow2(925) == 0) by (nonlinear_arith);
    }
}

/// What a bit pattern stands for, apart from its sign: zero at the bottom, then
/// the finite numbers by size, infinity, and NaNs above it.
pub proof fn law_single_patterns_are_ordered(s: Single)
    ensures
        s.zero() <==> s.bits == 0 || s.bits == 0x8000_0000,
        s.finite() <==> s.bits % 0x8000_0000 < 0x7f80_0000,
        s.nan() <==> s.bits % 0x8000_0000 > 0x7f80_0000,
        s.negative() <==> s.bits >= 0x8000_0000,
        s.finite() ==> (s.zero() <==> s.magnitude() == 0),
{
    let m = s.bits as int % 0x8000_0000;
    assert(s.exponent() == m / 0x80_0000);
    assert(s.mantissa() == m % 0x80_0000);
    if s.exponent() > 0 {
        lemma_pow2_pos((s.exponent() - 1) as nat);
        assert((0x80_0000 + s.mantissa()) * pow2((s.exponent() - 1) as nat) > 0)
            by (nonlinear_arith)
            requires
                pow2((s.exponent() - 1) as nat) > 0,
                s.mantissa() >= 0,
        ;
    }
}

/// A double is finite exactly below infinity's pattern, whatever its sign.
pub proof fn law_double_patterns_are_ordered(d: Double)
    ensures
        d.finite() <==> d.bits % 0x8000_0000_0000_0000 < 0x7ff0_0000_0000_0000,
        d.negative() <==> d.bits >= 0x8000_0000_0000_0000,
{
    let m = d.bits as int % 0x8000_0000_0000_0000;
    assert(d.exponent() == m / 0x10_0000_0000_0000);
}

} // verus!
