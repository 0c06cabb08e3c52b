//! Fixed-point scalar arithmetic.
//!
//! Every scalar quantity in the library (a coordinate, a velocity, a radius)
//! is an `i64` holding a real value times [`SCALE`].  All operations have
//! exact integer contracts; intermediate products are carried in 128 bits so
//! that only the final result of each operation has to fit.

use vstd::prelude::*;

verus! {

/// Number of fixed-point steps per whole unit: a stored value `v` stands for
/// the real number `v / SCALE`.
pub const SCALE: i64 = 1000;

/// Absolute value of a mathematical integer.
pub open spec fn iabs(x: int) -> int {
    if x < 0 {
        -x
    } else {
        x
    }
}

/// Truncating division (the semantics of `/` on hardware integers): the
/// quotient is rounded toward zero.
pub open spec fn tdiv(a: int, b: int) -> int {
    if (a < 0) == (b < 0) {
        iabs(a) / iabs(b)
    } else {
        -(iabs(a) / iabs(b))
    }
}

/// The fixed-point product of `a` and `b`: the mathematical product, scaled
/// back down and truncated toward zero.
pub open spec fn fxmul(a: int, b: int) -> int {
    tdiv(a * b, SCALE as int)
}

/// The fixed-point quotient of `a` by `b`: scaled up before the truncating
/// division so the result keeps fixed-point precision.
pub open spec fn fxdiv(a: int, b: int) -> int {
    tdiv(a * SCALE, b)
}

proof fn lemma_udiv_le(a: nat, b: nat)
    requires
        b >= 1,
    ensures
        a / b <= a,
{
    assert(a / b <= a) by (nonlinear_arith)
        requires
            b >= 1,
            a >= 0,
    ;
}

/// Magnitude of a truncating quotient never exceeds the magnitude of the
/// dividend when the divisor is a nonzero integer.
pub proof fn lemma_tdiv_le(a: int, b: int)
    requires
        b != 0,
    ensures
        iabs(tdiv(a, b)) <= iabs(a),
        iabs(tdiv(a, b)) <= iabs(a) / iabs(b),
{
    lemma_udiv_le(iabs(a) as nat, iabs(b) as nat);
}

/// Truncating division of 64-bit integers, computed over magnitudes so the
/// rounding direction is pinned down exactly.
pub fn div_trunc(a: i64, b: i64) -> (r: i64)
    requires
        b != 0,
        -0x7fff_ffff_ffff_ffff <= tdiv(a as int, b as int) <= 0x7fff_ffff_ffff_ffff,
    ensures
        r as int == tdiv(a as int, b as int),
{
    let neg: bool = (a < 0) != (b < 0);
    let ma: u64 = if a < 0 {
        (-(a as i128)) as u64
    } else {
        a as u64
    };
    let mb: u64 = if b < 0 {
        (-(b as i128)) as u64
    } else {
        b as u64
    };
    let q: u64 = ma / mb;
    proof {
        lemma_udiv_le(ma as nat, mb as nat);
    }
    if neg {
        -(q as i64)
    } else {
        q as i64
    }
}

/// Truncating division of 128-bit integers.
pub fn div_trunc_128(a: i128, b: i128) -> (r: i128)
    requires
        b != 0,
        -0x7fff_ffff_ffff_ffff_ffff_ffff_ffff_ffff <= a,
        -0x7fff_ffff_ffff_ffff_ffff_ffff_ffff_ffff <= b,
    ensures
        r as int == tdiv(a as int, b as int),
{
    let neg: bool = (a < 0) != (b < 0);
    let ma: u128 = if a < 0 {
        (-a) as u128
    } else {
        a as u128
    };
    let mb: u128 = if b < 0 {
        (-b) as u128
    } else {
        b as u128
    };
    let q: u128 = ma / mb;
    proof {
        lemma_udiv_le(ma as nat, mb as nat);
    }
    if neg {
        -(q as i128)
    } else {
        q as i128
    }
}

/// Fixed-point multiplication: `(a * b) / SCALE`, truncated toward zero.
/// The 128-bit intermediate cannot overflow, so only the result must fit.
pub fn mul_fx(a: i64, b: i64) -> (r: i64)
    requires
        -0x7fff_ffff_ffff_ffff <= fxmul(a as int, b as int) <= 0x7fff_ffff_ffff_ffff,
    ensures
        r as int == fxmul(a as int, b as int),
{
    proof {
        lemma_i64_product_fits(a as int, b as int);
    }
    let p: i128 = (a as i128) * (b as i128);
    let q: i128 = div_trunc_128(p, SCALE as i128);
    q as i64
}

/// The product of two 64-bit integers always fits in 128 bits.
pub proof fn lemma_i64_product_fits(a: int, b: int)
    requires
        -0x8000_0000_0000_0000 <= a <= 0x7fff_ffff_ffff_ffff,
        -0x8000_0000_0000_0000 <= b <= 0x7fff_ffff_ffff_ffff,
    ensures
        -0x7fff_ffff_ffff_ffff_ffff_ffff_ffff_ffff <= a * b
            <= 0x7fff_ffff_ffff_ffff_ffff_ffff_ffff_ffff,
{
    assert(-0x7fff_ffff_ffff_ffff_ffff_ffff_ffff_ffff <= a * b
        <= 0x7fff_ffff_ffff_ffff_ffff_ffff_ffff_ffff) by (nonlinear_arith)
        requires
            -0x8000_0000_0000_0000 <= a <= 0x7fff_ffff_ffff_ffff,
            -0x8000_0000_0000_0000 <= b <= 0x7fff_ffff_ffff_ffff,
    ;
}

/// Fixed-point division: `(a * SCALE) / b`, truncated toward zero.
pub fn div_fx(a: i64, b: i64) -> (r: i64)
    requires
        b != 0,
        -0x7fff_ffff_ffff_ffff <= fxdiv(a as int, b as int) <= 0x7fff_ffff_ffff_ffff,
    ensures
        r as int == fxdiv(a as int, b as int),
{
    proof {
        lemma_i64_product_fits(a as int, SCALE as int);
    }
    let p: i128 = (a as i128) * (SCALE as i128);
    let q: i128 = div_trunc_128(p, b as i128);
    q as i64
}

/// A value within the symmetric 64-bit range used by every contract of this
/// library (the most negative `i64` is left out so magnitudes always fit).
pub open spec fn fits64(x: int) -> bool {
    -0x7fff_ffff_ffff_ffff <= x <= 0x7fff_ffff_ffff_ffff
}

/// `r` is the integer square root of `n`.
pub open spec fn is_isqrt(r: int, n: int) -> bool {
    0 <= r && r * r <= n && n < (r + 1) * (r + 1)
}

/// The integer square root as a function, for use in contracts.
pub open spec fn isqrt_spec(n: int) -> int {
    choose|r: int| is_isqrt(r, n)
}

/// Any witness of `is_isqrt` is the value of `isqrt_spec`: integer square
/// roots are unique.
pub proof fn lemma_isqrt_is(r: int, n: int)
    requires
        is_isqrt(r, n),
    ensures
        isqrt_spec(n) == r,
        is_isqrt(isqrt_spec(n), n),
{
    assert(is_isqrt(isqrt_spec(n), n)) by {
        assert(exists|q: int| is_isqrt(q, n));
    }
    let s = isqrt_spec(n);
    assert(s == r) by (nonlinear_arith)
        requires
            is_isqrt(s, n),
            is_isqrt(r, n),
    ;
}

/// An integer square root exists for every nonnegative integer.
pub proof fn lemma_isqrt_exists(n: int)
    requires
        n >= 0,
    ensures
        exists|r: int| is_isqrt(r, n),
    decreases n,
{
    if n == 0 {
        assert(is_isqrt(0, 0));
    } else {
        let m = n - 1;
        lemma_isqrt_exists(m);
        let r = choose|r: int| is_isqrt(r, m);
        if (r + 1) * (r + 1) <= n {
            assert(is_isqrt(r + 1, n)) by (nonlinear_arith)
                requires
                    is_isqrt(r, m),
                    m == n - 1,
                    (r + 1) * (r + 1) <= n,
            ;
        } else {
            assert(is_isqrt(r, n));
        }
    }
}

/// Negating the dividend negates the truncating quotient.
pub proof fn lemma_tdiv_neg_num(a: int, b: int)
    requires
        b >= 1,
    ensures
        tdiv(-a, b) == -tdiv(a, b),
{
    assert(iabs(-a) == iabs(a));
}

/// Magnitude bound on a truncating quotient from a bound on the dividend.
pub proof fn lemma_tdiv_mono(a: int, b: int, ba: int)
    requires
        b >= 1,
        iabs(a) <= ba,
    ensures
        iabs(tdiv(a, b)) <= ba / b,
{
    lemma_tdiv_le(a, b);
    vstd::arithmetic::div_mod::lemma_div_is_ordered(iabs(a), ba, b);
}

/// `(a * b) / b == a` for positive `b`: scaling up cancels exactly.
pub proof fn lemma_tdiv_cancel(a: int, b: int)
    requires
        b >= 1,
    ensures
        tdiv(a * b, b) == a,
        (a * b) / b == a,
{
    vstd::arithmetic::div_mod::lemma_div_multiples_vanish(a, b);
    assert(b * a == a * b) by (nonlinear_arith);
    if a >= 0 {
        assert(iabs(a * b) == a * b) by (nonlinear_arith)
            requires
                a >= 0,
                b >= 1,
        ;
        assert(tdiv(a * b, b) == (a * b) / b);
    } else {
        assert(iabs(a * b) == (-a) * b) by (nonlinear_arith)
            requires
                a < 0,
                b >= 1,
        ;
        vstd::arithmetic::div_mod::lemma_div_multiples_vanish(-a, b);
        assert(b * (-a) == (-a) * b) by (nonlinear_arith);
        assert(iabs(a * b) / iabs(b) == -a);
        assert(tdiv(a * b, b) == a);
    }
}

/// Magnitude bound on a product from magnitude bounds on its factors.
pub proof fn lemma_mul_bound(a: int, b: int, ba: int, bb: int)
    requires
        iabs(a) <= ba,
        iabs(b) <= bb,
    ensures
        iabs(a * b) <= ba * bb,
        -(ba * bb) <= a * b <= ba * bb,
{
    assert(iabs(a * b) <= ba * bb && -(ba * bb) <= a * b <= ba * bb) by (nonlinear_arith)
        requires
            iabs(a) <= ba,
            iabs(b) <= bb,
    ;
}

/// Integer square root: the greatest integer whose square does not exceed the
/// argument.
pub fn isqrt(x: u128) -> (r: u64)
    ensures
        (r * r) as int <= x as int,
        x < (r + 1) * (r + 1),
{
    if x == 0 {
        return 0;
    }
    let mut lo: u128 = 1;
    let mut hi: u128 = if x < 0x1_0000_0000_0000_0000 {
        x + 1
    } else {
        0x1_0000_0000_0000_0000
    };
    // Invariant: lo * lo <= x < hi * hi, with hi at most 2^64.
    proof {
        assert(x < (x + 1) * (x + 1)) by (nonlinear_arith)
            requires
                x >= 0,
        ;
        assert(x < 0x1_0000_0000_0000_0000 * 0x1_0000_0000_0000_0000);
    }
    while lo + 1 < hi
        invariant
            1 <= lo < hi <= 0x1_0000_0000_0000_0000,
            lo * lo <= x as int,
            x < hi * hi,
        decreases hi - lo,
    {
        let mid: u128 = lo + (hi - lo) / 2;
        proof {
            assert(mid * mid < 0x1_0000_0000_0000_0000 * 0x1_0000_0000_0000_0000)
                by (nonlinear_arith)
                requires
                    0 <= mid < 0x1_0000_0000_0000_0000,
            ;
        }
        if mid * mid <= x {
            lo = mid;
        } else {
            hi = mid;
        }
    }
    lo as u64
}

} // verus!
