//! Signed fixed-point numbers with 40 fractional bits.
//!
//! Every quantity of the engine (mass, length, speed, time) is a [`Fixed`]:
//! a 64-bit integer `raw` that stands for the real number `raw / 2^40`.
//! Products and quotients are rounded toward zero, so that negating the
//! operands negates the result exactly. An operation whose exact result does
//! not fit returns `None`; nothing wraps or saturates.

use vstd::prelude::*;

verus! {

/// Number of fractional bits.
pub const FRAC_BITS: u32 = 40;

/// Raw representation of the number one, `2^40`.
pub const ONE_RAW: i64 = 0x100_0000_0000;

/// Whether `v` is the raw value of some [`Fixed`].
pub open spec fn fits(v: int) -> bool {
    i64::MIN <= v <= i64::MAX
}

/// Magnitude of a raw number.
pub open spec fn magnitude(v: int) -> int {
    if v < 0 {
        -v
    } else {
        v
    }
}

/// Quotient of `a` by `b` rounded toward zero (`0` when `b` is `0`).
pub open spec fn trunc_div(a: int, b: int) -> int {
    if b > 0 {
        if a >= 0 {
            a / b
        } else {
            -((-a) / b)
        }
    } else if b < 0 {
        if a > 0 {
            -(a / (-b))
        } else {
            (-a) / (-b)
        }
    } else {
        0
    }
}

/// Raw value of the product of two fixed-point numbers given by their raw values.
pub open spec fn mul_raw(a: int, b: int) -> int {
    trunc_div(a * b, ONE_RAW as int)
}

/// Raw value of the quotient of two fixed-point numbers given by their raw values.
pub open spec fn div_raw(a: int, b: int) -> int {
    trunc_div(a * ONE_RAW, b)
}

/// `r` is the integer square root of `n`, rounded down.
pub open spec fn is_floor_sqrt(n: int, r: int) -> bool {
    0 <= r && r * r <= n && n < (r + 1) * (r + 1)
}

/// The integer square root of `n`, rounded down (meaningful for `n >= 0`).
pub open spec fn floor_sqrt(n: int) -> int {
    choose|r: int| is_floor_sqrt(n, r)
}

/// A number has at most one rounded-down square root.
pub proof fn lemma_floor_sqrt_unique(n: int, r1: int, r2: int)
    requires
        is_floor_sqrt(n, r1),
        is_floor_sqrt(n, r2),
    ensures
        r1 == r2,
{
    if r1 < r2 {
        assert((r1 + 1) * (r1 + 1) <= r2 * r2) by (nonlinear_arith)
            requires
                0 <= r1,
                r1 + 1 <= r2,
        ;
    } else if r2 < r1 {
        assert((r2 + 1) * (r2 + 1) <= r1 * r1) by (nonlinear_arith)
            requires
                0 <= r2,
                r2 + 1 <= r1,
        ;
    }
}

/// A witness of [`is_floor_sqrt`] is the value of [`floor_sqrt`].
pub proof fn lemma_floor_sqrt_is(n: int, r: int)
    requires
        is_floor_sqrt(n, r),
    ensures
        floor_sqrt(n) == r,
{
    lemma_floor_sqrt_unique(n, r, floor_sqrt(n));
}

/// Quotient of `a` by a positive `b`, rounded toward zero.
fn div_toward_zero(a: i128, b: i128) -> (q: i128)
    requires
        b > 0,
    ensures
        q == trunc_div(a as int, b as int),
{
    if a >= 0 {
        a / b
    } else if a == i128::MIN {
        // -a does not exist as an i128: divide a + b, which is still negative or zero.
        let shifted: i128 = a + b;
        proof {
            // (-a) / b == (-a - b) / b + 1
            vstd::arithmetic::div_mod::lemma_div_plus_one(-(a as int) - b as int, b as int);
        }
        if shifted >= 0 {
            -1
        } else {
            let q0: i128 = -((-shifted) / b);
            q0 - 1
        }
    } else {
        -((-a) / b)
    }
}

/// Integer square root, rounded down.
pub fn isqrt(n: u128) -> (r: u64)
    ensures
        is_floor_sqrt(n as int, r as int),
        r as int == floor_sqrt(n as int),
{
    let mut lo: u128 = 0;
    let mut hi: u128 = 0x1_0000_0000_0000_0000;
    while hi - lo > 1
        invariant
            lo < hi <= 0x1_0000_0000_0000_0000,
            lo * lo <= n,
            hi == 0x1_0000_0000_0000_0000 || n < hi * hi,
        decreases hi - lo,
    {
        let mid: u128 = lo + (hi - lo) / 2;
        assert(mid * mid <= 0xFFFF_FFFF_FFFF_FFFF * 0xFFFF_FFFF_FFFF_FFFF) by (nonlinear_arith)
            requires
                0 <= mid <= 0xFFFF_FFFF_FFFF_FFFF,
        ;
        if mid * mid <= n {
            lo = mid;
        } else {
            hi = mid;
        }
    }
    proof {
        if hi == 0x1_0000_0000_0000_0000 {
            assert((lo + 1) * (lo + 1) == 0x1_0000_0000_0000_0000 * 0x1_0000_0000_0000_0000)
                by (nonlinear_arith)
                requires
                    lo + 1 == 0x1_0000_0000_0000_0000,
            ;
        }
        lemma_floor_sqrt_is(n as int, lo as int);
    }
    lo as u64
}

/// A real number in fixed-point representation: `raw / 2^40`.
#[derive(Clone, Copy, Debug, PartialEq, Eq, Structural)]
pub struct Fixed {
    pub raw: i64,
}

impl Fixed {
    /// Sum, when it fits.
    pub open spec fn add_spec(self, rhs: Fixed) -> Option<Fixed> {
        if fits(self.raw + rhs.raw) {
            Some(Fixed { raw: (self.raw + rhs.raw) as i64 })
        } else {
            None
        }
    }

    /// Difference, when it fits.
    pub open spec fn sub_spec(self, rhs: Fixed) -> Option<Fixed> {
        if fits(self.raw - rhs.raw) {
            Some(Fixed { raw: (self.raw - rhs.raw) as i64 })
        } else {
            None
        }
    }

    /// Negation, when it fits.
    pub open spec fn neg_spec(self) -> Option<Fixed> {
        if fits(-self.raw) {
            Some(Fixed { raw: (-self.raw) as i64 })
        } else {
            None
        }
    }

    /// Product rounded toward zero, when it fits.
    pub open spec fn mul_spec(self, rhs: Fixed) -> Option<Fixed> {
        let p = mul_raw(self.raw as int, rhs.raw as int);
        if fits(p) {
            Some(Fixed { raw: p as i64 })
        } else {
            None
        }
    }

    /// Quotient rounded toward zero, when the divisor is not zero and it fits.
    pub open spec fn div_spec(self, rhs: Fixed) -> Option<Fixed> {
        let q = div_raw(self.raw as int, rhs.raw as int);
        if rhs.raw != 0 && fits(q) {
            Some(Fixed { raw: q as i64 })
        } else {
            None
        }
    }

    /// The fixed-point number nearest to `num / den` in the direction of zero.
    pub open spec fn ratio_spec(num: i64, den: i64) -> Option<Fixed> {
        let q = trunc_div(num * ONE_RAW, den as int);
        if den != 0 && fits(q) {
            Some(Fixed { raw: q as i64 })
        } else {
            None
        }
    }

    /// The fixed-point number for the fraction `num / den`, rounded toward
    /// zero (zero when `den` is zero). Every such fraction fits.
    pub open spec fn fraction_spec(num: i16, den: u32) -> Fixed {
        Fixed { raw: trunc_div(num * ONE_RAW, den as int) as i64 }
    }

    /// The fixed-point number for the fraction `num / den`, rounded toward
    /// zero.
    pub fn fraction(num: i16, den: u32) -> (r: Fixed)
        ensures
            r == Fixed::fraction_spec(num, den),
            r.raw == trunc_div(num * ONE_RAW, den as int),
    {
        if den == 0 {
            return Fixed { raw: 0 };
        }
        let n: i128 = wide_product(num as i64, ONE_RAW);
        let q: i128 = div_toward_zero(n, den as i128);
        proof {
            if n >= 0 {
                vstd::arithmetic::div_mod::lemma_div_nonincreasing(n as int, den as int);
                vstd::arithmetic::div_mod::lemma_div_pos_is_pos(n as int, den as int);
            } else {
                vstd::arithmetic::div_mod::lemma_div_nonincreasing(-(n as int), den as int);
                vstd::arithmetic::div_mod::lemma_div_pos_is_pos(-(n as int), den as int);
            }
        }
        Fixed { raw: q as i64 }
    }

    pub fn zero() -> (r: Fixed)
        ensures
            r.raw == 0,
    {
        Fixed { raw: 0 }
    }

    pub fn one() -> (r: Fixed)
        ensures
            r.raw == ONE_RAW,
    {
        Fixed { raw: ONE_RAW }
    }

    pub fn from_raw(raw: i64) -> (r: Fixed)
        ensures
            r.raw == raw,
    {
        Fixed { raw }
    }

    /// Narrows a wide raw value.
    pub fn from_wide(v: i128) -> (r: Option<Fixed>)
        ensures
            r == (if fits(v as int) {
                Some(Fixed { raw: v as i64 })
            } else {
                None
            }),
    {
        if v < i64::MIN as i128 || v > i64::MAX as i128 {
            None
        } else {
            Some(Fixed { raw: v as i64 })
        }
    }

    pub fn checked_add(self, rhs: Fixed) -> (r: Option<Fixed>)
        ensures
            r == self.add_spec(rhs),
    {
        Fixed::from_wide(self.raw as i128 + rhs.raw as i128)
    }

    pub fn checked_sub(self, rhs: Fixed) -> (r: Option<Fixed>)
        ensures
            r == self.sub_spec(rhs),
    {
        Fixed::from_wide(self.raw as i128 - rhs.raw as i128)
    }

    pub fn checked_neg(self) -> (r: Option<Fixed>)
        ensures
            r == self.neg_spec(),
    {
        Fixed::from_wide(-(self.raw as i128))
    }

    pub fn checked_mul(self, rhs: Fixed) -> (r: Option<Fixed>)
        ensures
            r == self.mul_spec(rhs),
    {
        let p: i128 = wide_product(self.raw, rhs.raw);
        Fixed::from_wide(div_toward_zero(p, ONE_RAW as i128))
    }

    pub fn checked_div(self, rhs: Fixed) -> (r: Option<Fixed>)
        ensures
            r == self.div_spec(rhs),
    {
        if rhs.raw == 0 {
            return None;
        }
        let n: i128 = wide_product(self.raw, ONE_RAW);
        if rhs.raw > 0 {
            Fixed::from_wide(div_toward_zero(n, rhs.raw as i128))
        } else {
            Fixed::from_wide(div_toward_zero(-n, -(rhs.raw as i128)))
        }
    }

    /// The fixed-point number for `num / den`, rounded toward zero.
    pub fn from_ratio(num: i64, den: i64) -> (r: Option<Fixed>)
        ensures
            r == Fixed::ratio_spec(num, den),
    {
        if den == 0 {
            return None;
        }
        let n: i128 = wide_product(num, ONE_RAW);
        if den > 0 {
            Fixed::from_wide(div_toward_zero(n, den as i128))
        } else {
            Fixed::from_wide(div_toward_zero(-n, -(den as i128)))
        }
    }
}

/// Exact product of two 64-bit values.
pub(crate) fn wide_product(a: i64, b: i64) -> (p: i128)
    ensures
        p == a * b,
        -0x4000_0000_0000_0000_0000_0000_0000_0000 < p <= 0x4000_0000_0000_0000_0000_0000_0000_0000,
{
    assert(-0x4000_0000_0000_0000_0000_0000_0000_0000 < a * b
        <= 0x4000_0000_0000_0000_0000_0000_0000_0000) by (nonlinear_arith)
        requires
            -0x8000_0000_0000_0000 <= a < 0x8000_0000_0000_0000,
            -0x8000_0000_0000_0000 <= b < 0x8000_0000_0000_0000,
    ;
    (a as i128) * (b as i128)
}

} // verus!
