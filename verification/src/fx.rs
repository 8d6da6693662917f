//! Exact fixed-point arithmetic: the number type every geometric and
//! photometric quantity in this crate is expressed in.
//!
//! An [`Fx`] holds `bits / 65536` as a real value. Arithmetic is computed
//! exactly in 128-bit intermediates, rounded with Euclidean (floor for
//! positive divisors) division, and clamped into `[-2^62, 2^62]` bits, so
//! every operation is total and its result is pinned down exactly by the
//! matching spec function.

use vstd::prelude::*;

verus! {

/// One whole unit is this many bits: the representation is `bits / 65536`.
pub const SCALE: i64 = 65536;

/// Every arithmetic result is clamped to `[-MAX_BITS, MAX_BITS]`.
pub const MAX_BITS: i64 = 0x4000_0000_0000_0000;

/// A real number represented exactly as `bits / 65536`.
#[derive(Debug, Copy, Clone, PartialEq, Eq, Structural)]
pub struct Fx {
    pub bits: i64,
}

/// Saturation applied to every arithmetic result.
pub open spec fn clamp_bits(x: int) -> int {
    if x > MAX_BITS as int {
        MAX_BITS as int
    } else if x < -(MAX_BITS as int) {
        -(MAX_BITS as int)
    } else {
        x
    }
}

pub open spec fn fx(bits: int) -> Fx {
    Fx { bits: bits as i64 }
}

pub open spec fn fx_zero() -> Fx {
    fx(0)
}

pub open spec fn fx_one() -> Fx {
    fx(SCALE as int)
}

/// The whole number `v` as a fixed-point value.
pub open spec fn fx_int(v: int) -> Fx {
    fx(v * (SCALE as int))
}

/// The largest representable value, standing in for infinity.
pub open spec fn fx_max() -> Fx {
    fx(MAX_BITS as int)
}

pub open spec fn fadd(a: Fx, b: Fx) -> Fx {
    fx(clamp_bits(a.bits + b.bits))
}

pub open spec fn fsub(a: Fx, b: Fx) -> Fx {
    fx(clamp_bits(a.bits - b.bits))
}

pub open spec fn fneg(a: Fx) -> Fx {
    fx(clamp_bits(-a.bits))
}

pub open spec fn fabs(a: Fx) -> Fx {
    fx(clamp_bits(if a.bits < 0 { -a.bits } else { a.bits as int }))
}

/// Product, scaled back down with floor rounding.
pub open spec fn fmul(a: Fx, b: Fx) -> Fx {
    fx(clamp_bits((a.bits * b.bits) / (SCALE as int)))
}

/// Quotient, scaled up, Euclidean rounding; division by zero yields zero
/// (a representable stand-in for the unrepresentable infinity).
pub open spec fn fdiv(a: Fx, b: Fx) -> Fx {
    if b.bits == 0 {
        fx_zero()
    } else {
        fx(clamp_bits((a.bits * (SCALE as int)) / (b.bits as int)))
    }
}

pub open spec fn fmin(a: Fx, b: Fx) -> Fx {
    if a.bits <= b.bits {
        a
    } else {
        b
    }
}

pub open spec fn fmax(a: Fx, b: Fx) -> Fx {
    if a.bits >= b.bits {
        a
    } else {
        b
    }
}

fn clamp_i128(x: i128) -> (r: i64)
    ensures
        r as int == clamp_bits(x as int),
{
    if x > MAX_BITS as i128 {
        MAX_BITS
    } else if x < -(MAX_BITS as i128) {
        -MAX_BITS
    } else {
        x as i64
    }
}

impl Fx {
    /// The raw representation: the real value is `bits / 65536`.
    pub fn from_bits(bits: i64) -> (r: Fx)
        ensures
            r.bits == bits,
    {
        Fx { bits }
    }

    /// The whole number `v`.
    pub fn from_int(v: i32) -> (r: Fx)
        ensures
            r == fx_int(v as int),
            r.bits == v * SCALE,
    {
        Fx { bits: (v as i64) * SCALE }
    }

    /// The whole number `v`.
    pub fn from_u32(v: u32) -> (r: Fx)
        ensures
            r == fx_int(v as int),
    {
        Fx { bits: (v as i64) * SCALE }
    }

    /// The largest representable value, standing in for infinity.
    pub fn max_value() -> (r: Fx)
        ensures
            r == fx_max(),
    {
        Fx { bits: MAX_BITS }
    }

    pub fn zero() -> (r: Fx)
        ensures
            r == fx_zero(),
    {
        Fx { bits: 0 }
    }

    pub fn one() -> (r: Fx)
        ensures
            r == fx_one(),
    {
        Fx { bits: SCALE }
    }

    pub fn add(self, other: Fx) -> (r: Fx)
        ensures
            r == fadd(self, other),
    {
        Fx { bits: clamp_i128(self.bits as i128 + other.bits as i128) }
    }

    pub fn sub(self, other: Fx) -> (r: Fx)
        ensures
            r == fsub(self, other),
    {
        Fx { bits: clamp_i128(self.bits as i128 - other.bits as i128) }
    }

    pub fn neg(self) -> (r: Fx)
        ensures
            r == fneg(self),
    {
        Fx { bits: clamp_i128(-(self.bits as i128)) }
    }

    pub fn abs(self) -> (r: Fx)
        ensures
            r == fabs(self),
    {
        if self.bits < 0 {
            Fx { bits: clamp_i128(-(self.bits as i128)) }
        } else {
            Fx { bits: clamp_i128(self.bits as i128) }
        }
    }

    pub fn mul(self, other: Fx) -> (r: Fx)
        ensures
            r == fmul(self, other),
    {
        proof {
            assert((self.bits as int) * (other.bits as int) <= i64::MIN as int * i64::MIN as int
                && (self.bits as int) * (other.bits as int) >= -(i64::MIN as int * i64::MIN as int))
                by (nonlinear_arith)
                requires
                    i64::MIN <= self.bits <= i64::MAX,
                    i64::MIN <= other.bits <= i64::MAX,
            ;
        }
        let p: i128 = (self.bits as i128) * (other.bits as i128);
        proof {
            lemma_div_magnitude(p as int, SCALE as int);
        }
        let q: i128 = p.checked_div_euclid(SCALE as i128).unwrap();
        Fx { bits: clamp_i128(q) }
    }

    pub fn div(self, other: Fx) -> (r: Fx)
        ensures
            r == fdiv(self, other),
    {
        if other.bits == 0 {
            return Fx { bits: 0 };
        }
        proof {
            assert((self.bits as int) * (SCALE as int) <= i64::MAX as int * SCALE as int && (
            self.bits as int) * (SCALE as int) >= i64::MIN as int * SCALE as int)
                by (nonlinear_arith)
                requires
                    i64::MIN <= self.bits <= i64::MAX,
            ;
        }
        let num: i128 = (self.bits as i128) * (SCALE as i128);
        proof {
            lemma_div_magnitude(num as int, other.bits as int);
        }
        let q: i128 = num.checked_div_euclid(other.bits as i128).unwrap();
        Fx { bits: clamp_i128(q) }
    }

    pub fn min(self, other: Fx) -> (r: Fx)
        ensures
            r == fmin(self, other),
    {
        if self.bits <= other.bits {
            self
        } else {
            other
        }
    }

    pub fn max(self, other: Fx) -> (r: Fx)
        ensures
            r == fmax(self, other),
    {
        if self.bits >= other.bits {
            self
        } else {
            other
        }
    }
}

/// `r` is the integer square root of `n`.
pub open spec fn is_isqrt(n: int, r: int) -> bool {
    0 <= r && r * r <= n && n < (r + 1) * (r + 1)
}

/// The integer square root, as a function (unique where `n >= 0`).
pub open spec fn isqrt(n: int) -> int {
    choose|r: int| is_isqrt(n, r)
}

pub proof fn lemma_isqrt_exists(n: int)
    requires
        n >= 0,
    ensures
        exists|r: int| is_isqrt(n, r),
        is_isqrt(n, isqrt(n)),
    decreases n,
{
    if n == 0 {
        assert(is_isqrt(0, 0)) by (nonlinear_arith);
    } else {
        let m = n - 1;
        lemma_isqrt_exists(m);
        let r = choose|r: int| is_isqrt(m, r);
        if n < (r + 1) * (r + 1) {
            assert(is_isqrt(n, r));
        } else {
            assert(is_isqrt(n, r + 1)) by (nonlinear_arith)
                requires
                    is_isqrt(n - 1, r) && n >= (r + 1) * (r + 1),
            ;
        }
    }
}

pub proof fn lemma_isqrt_unique(n: int, r1: int, r2: int)
    requires
        is_isqrt(n, r1),
        is_isqrt(n, r2),
    ensures
        r1 == r2,
{
    assert(r1 == r2) by (nonlinear_arith)
        requires
            is_isqrt(n, r1) && is_isqrt(n, r2),
    ;
}

/// An integer square root is below any `b >= 0` whose square exceeds `n`.
pub proof fn lemma_isqrt_bound(n: int, r: int, b: int)
    requires
        is_isqrt(n, r),
        n < b * b,
        b >= 0,
    ensures
        r < b,
{
    assert(r < b) by (nonlinear_arith)
        requires
            is_isqrt(n, r) && n < b * b && b >= 0,
    ;
}

fn isqrt_u128(n: u128) -> (r: u128)
    requires
        n < 0x4000_0000_0000_0000_0000_0000_0000_0000u128,
    ensures
        is_isqrt(n as int, r as int),
{
    let mut lo: u128 = 0;
    let mut hi: u128 = 0x8000_0000_0000_0000;
    proof {
        assert(0x8000_0000_0000_0000int * 0x8000_0000_0000_0000int
            == 0x4000_0000_0000_0000_0000_0000_0000_0000int) by (nonlinear_arith);
    }
    while hi - lo > 1
        invariant
            lo < hi <= 0x8000_0000_0000_0000u128,
            (lo as int) * (lo as int) <= n as int,
            (n as int) < (hi as int) * (hi as int),
        decreases hi - lo,
    {
        let mid: u128 = lo + (hi - lo) / 2;
        proof {
            assert((mid as int) * (mid as int) <= 0x8000_0000_0000_0000int
                * 0x8000_0000_0000_0000int) by (nonlinear_arith)
                requires
                    0 <= mid <= 0x8000_0000_0000_0000u128,
            ;
        }
        if mid * mid <= n {
            lo = mid;
        } else {
            hi = mid;
        }
    }
    lo
}

/// The square root of `a = bits/65536`: the representable value whose square
/// is nearest `a` from below; a negative argument (which has no real root)
/// yields zero.
pub open spec fn fsqrt(a: Fx) -> Fx {
    if a.bits < 0 {
        fx_zero()
    } else {
        fx(isqrt(a.bits * (SCALE as int)))
    }
}

/// `b^k` by square-and-multiply in fixed point; this recursion is the
/// library's definition of the integer power.
pub open spec fn fpow_int(b: Fx, k: nat) -> Fx
    decreases k,
{
    if k == 0 {
        fx_one()
    } else if k % 2 == 0 {
        fpow_int(fmul(b, b), k / 2)
    } else {
        fmul(b, fpow_int(b, (k - 1) as nat))
    }
}

/// `c^(f/65536)` for `0 <= f < 65536` by `k` halvings of the exponent:
/// each step takes one square root and multiplies it in when the leading
/// bit of the remaining fraction is set.
pub open spec fn fpow_frac(c: Fx, f: int, k: nat) -> Fx
    decreases k,
{
    if k == 0 {
        fx_one()
    } else {
        let s = fsqrt(c);
        if 2 * f >= SCALE as int {
            fmul(s, fpow_frac(s, 2 * f - SCALE as int, (k - 1) as nat))
        } else {
            fpow_frac(s, 2 * f, (k - 1) as nat)
        }
    }
}

/// `b^e` for `b, e >= 0`: the integer power times the 16-bit fractional power.
pub open spec fn fpow(b: Fx, e: Fx) -> Fx {
    fmul(
        fpow_int(b, ((e.bits as int) / (SCALE as int)) as nat),
        fpow_frac(b, (e.bits as int) % (SCALE as int), 16),
    )
}

impl Fx {
    pub fn sqrt(self) -> (r: Fx)
        ensures
            r == fsqrt(self),
            r.bits >= 0,
    {
        if self.bits < 0 {
            return Fx { bits: 0 };
        }
        proof {
            assert((self.bits as int) * (SCALE as int) <= i64::MAX as int * SCALE as int)
                by (nonlinear_arith)
                requires
                    self.bits <= i64::MAX,
            ;
        }
        let n: u128 = (self.bits as u128) * (SCALE as u128);
        let r = isqrt_u128(n);
        proof {
            lemma_isqrt_exists(n as int);
            lemma_isqrt_unique(n as int, r as int, isqrt(n as int));
            lemma_isqrt_bound(n as int, r as int, 0x1_0000_0000_0000i64 as int);
        }
        Fx { bits: r as i64 }
    }

    fn pow_frac(self, f0: u32, k: u32) -> (r: Fx)
        requires
            f0 < SCALE as u32,
        ensures
            r == fpow_frac(self, f0 as int, k as nat),
        decreases k,
    {
        if k == 0 {
            Fx::one()
        } else {
            let s = self.sqrt();
            let f2: u32 = 2 * f0;
            if f2 >= SCALE as u32 {
                s.mul(s.pow_frac(f2 - SCALE as u32, k - 1))
            } else {
                s.pow_frac(f2, k - 1)
            }
        }
    }

    pub fn pow_int(self, k: u64) -> (r: Fx)
        ensures
            r == fpow_int(self, k as nat),
        decreases k,
    {
        if k == 0 {
            Fx::one()
        } else if k % 2 == 0 {
            self.mul(self).pow_int(k / 2)
        } else {
            self.mul(self.pow_int(k - 1))
        }
    }

    /// `self^e` for a non-negative exponent.
    pub fn pow(self, e: Fx) -> (r: Fx)
        requires
            e.bits >= 0,
        ensures
            r == fpow(self, e),
    {
        let eb: u64 = e.bits as u64;
        let ip: u64 = eb / (SCALE as u64);
        let f: u32 = (eb % (SCALE as u64)) as u32;
        self.pow_int(ip).mul(self.pow_frac(f, 16))
    }
}

/// The magnitude of a Euclidean quotient never exceeds the magnitude of the
/// dividend (the divisor being a nonzero integer).
pub proof fn lemma_div_magnitude(a: int, b: int)
    requires
        b != 0,
    ensures
        a / b <= (if a < 0 {
            -a
        } else {
            a
        }),
        a / b >= -(if a < 0 {
            -a
        } else {
            a
        }) - 1,
{
    assert(a / b <= (if a < 0 { -a } else { a }) && a / b >= -(if a < 0 {
        -a
    } else {
        a
    }) - 1) by (nonlinear_arith)
        requires
            b != 0,
    ;
}

} // verus!
