//! 128-bit helpers: the high half of a 128x128-bit product and a
//! division by 10^16 through multiplication by a precomputed reciprocal.
use vstd::arithmetic::div_mod::{
    lemma_div_denominator, lemma_div_is_ordered, lemma_fundamental_div_mod,
    lemma_fundamental_div_mod_converse,
};
use vstd::arithmetic::mul::{
    lemma_mul_inequality, lemma_mul_is_distributive_add, lemma_mul_is_distributive_add_other_way,
};
use vstd::prelude::*;

verus! {

/// 2^64.
pub open spec fn base64() -> int {
    0x1_0000_0000_0000_0000int
}

/// 2^128.
pub open spec fn base128() -> int {
    0x1_0000_0000_0000_0000_0000_0000_0000_0000int
}

/// Schoolbook product of two numbers written in base `b`, with the
/// three carries of the high-half computation made explicit.
proof fn lemma_mulhi_split(
    b: int, x: int, y: int, xh: int, xl: int, yh: int, yl: int,
    c: int, r0: int, h1: int, ml: int, h2: int, r2: int,
)
    requires
        x == xh * b + xl,
        y == yh * b + yl,
        xl * yl == c * b + r0,
        xl * yh + c == h1 * b + ml,
        xh * yl + ml == h2 * b + r2,
    ensures
        x * y == (xh * yh + h1 + h2) * (b * b) + (r2 * b + r0),
{
    let xb = xh * b;
    let yb = yh * b;
    assert((xb + xl) * (yb + yl) == xb * yb + xb * yl + xl * yb + xl * yl) by {
        lemma_mul_is_distributive_add_other_way(yb + yl, xb, xl);
        lemma_mul_is_distributive_add(xb, yb, yl);
        lemma_mul_is_distributive_add(xl, yb, yl);
    }
    assert(xb * yb == xh * yh * (b * b)) by (nonlinear_arith)
        requires xb == xh * b, yb == yh * b;
    assert(xb * yl == (xh * yl) * b) by (nonlinear_arith)
        requires xb == xh * b;
    assert(xl * yb == (xl * yh) * b) by (nonlinear_arith)
        requires yb == yh * b;
    assert((xh * yl) * b == h2 * (b * b) + r2 * b - ml * b) by (nonlinear_arith)
        requires
            xh * yl == h2 * b + r2 - ml,
    ;
    assert((xl * yh) * b == h1 * (b * b) + ml * b - c * b) by (nonlinear_arith)
        requires
            xl * yh == h1 * b + ml - c,
    ;
    assert(xh * yh * (b * b) + h1 * (b * b) + h2 * (b * b) == (xh * yh + h1 + h2) * (b * b))
        by (nonlinear_arith);
}

proof fn lemma_u64_product_bound(a: u64, b: u64)
    ensures
        a as int * b as int <= 0xffff_ffff_ffff_fffe_0000_0000_0000_0001int,
{
    let m = 0xffff_ffff_ffff_ffffint;
    assert(a as int * b as int <= m * m) by (nonlinear_arith)
        requires
            0 <= a <= m,
            0 <= b <= m,
    ;
    assert(m * m == 0xffff_ffff_ffff_fffe_0000_0000_0000_0001int);
}

/// Returns the high 128 bits of the 256-bit product `x * y`.
pub fn u128_mulhi(x: u128, y: u128) -> (r: u128)
    ensures
        r as int == (x as int * y as int) / base128(),
{
    let x_lo = x as u64;
    let x_hi = (x >> 64) as u64;
    let y_lo = y as u64;
    let y_hi = (y >> 64) as u64;
    proof {
        assert(x_lo as int == x % 0x1_0000_0000_0000_0000u128) by (bit_vector)
            requires x_lo == x as u64;
        assert(x_hi as int == x / 0x1_0000_0000_0000_0000u128) by (bit_vector)
            requires x_hi == (x >> 64) as u64;
        assert(y_lo as int == y % 0x1_0000_0000_0000_0000u128) by (bit_vector)
            requires y_lo == y as u64;
        assert(y_hi as int == y / 0x1_0000_0000_0000_0000u128) by (bit_vector)
            requires y_hi == (y >> 64) as u64;
        lemma_u64_product_bound(x_lo, y_lo);
        lemma_u64_product_bound(x_lo, y_hi);
        lemma_u64_product_bound(x_hi, y_lo);
        lemma_u64_product_bound(x_hi, y_hi);
    }

    // handle possibility of overflow
    let carry = (u128::from(x_lo) * u128::from(y_lo)) >> 64;
    let ghost p0 = (x_lo as int * y_lo as int) as u128;
    assert(carry == p0 / 0x1_0000_0000_0000_0000u128) by (bit_vector)
        requires carry == p0 >> 64;
    let m = u128::from(x_lo) * u128::from(y_hi) + carry;
    let high1 = m >> 64;

    let m_lo = m as u64;
    let high2 = (u128::from(x_hi) * u128::from(y_lo) + u128::from(m_lo)) >> 64;

    proof {
        assert(high1 == m / 0x1_0000_0000_0000_0000u128) by (bit_vector)
            requires high1 == m >> 64;
        assert(m_lo as int == m % 0x1_0000_0000_0000_0000u128) by (bit_vector)
            requires m_lo == m as u64;
        let p2 = (x_hi as int * y_lo as int + m_lo as int) as u128;
        assert(high2 == p2 / 0x1_0000_0000_0000_0000u128) by (bit_vector)
            requires high2 == p2 >> 64;
        let r0 = p0 % 0x1_0000_0000_0000_0000u128;
        let r2 = p2 % 0x1_0000_0000_0000_0000u128;
        assert(base128() == base64() * base64());
        lemma_mulhi_split(
            base64(), x as int, y as int, x_hi as int, x_lo as int, y_hi as int, y_lo as int,
            carry as int, r0 as int, high1 as int, m_lo as int, high2 as int, r2 as int,
        );
        lemma_fundamental_div_mod_converse(
            x as int * y as int,
            base128(),
            x_hi as int * y_hi as int + high1 as int + high2 as int,
            r2 as int * base64() + r0 as int,
        );
    }

    u128::from(x_hi) * u128::from(y_hi) + high1 + high2
}

/// 10^16, the divisor of [`div_rem_1e16`].
const D: u128 = 10000000000000000u128;

/// The multiplier that stands for 2^179 / 10^16, rounded up.
///
/// These constant values are computed with the CHOOSE_MULTIPLIER procedure
/// from the Granlund & Montgomery paper, using N=128, prec=128 and d=1E16.
const M_HIGH: u128 = 76624777043294442917917351357515459181u128;

/// The shift that follows the high half of the product.
const SH_POST: u32 = 51;

/// 10^16 as a mathematical integer.
pub open spec fn ten_pow_16() -> int {
    10000000000000000int
}

/// 2^179, the scale of [`M_HIGH`].
spec fn two_pow_179() -> int {
    0x8_0000_0000_0000_0000_0000_0000_0000_0000_0000_0000_0000int
}

/// For every 128-bit `n`, multiplying by [`M_HIGH`] and dropping 179 bits
/// divides `n` by 10^16 exactly.
proof fn lemma_reciprocal_divides(n: u128)
    ensures
        (n as int * M_HIGH as int) / two_pow_179() == n as int / ten_pow_16(),
{
    let d = ten_pow_16();
    let m = M_HIGH as int;
    let big = two_pow_179();
    let e = m * d - big;
    assert(e == 630438908198912int);
    let q = n as int / d;
    let r = n as int % d;
    lemma_fundamental_div_mod(n as int, d);
    let qmax = 0xffff_ffff_ffff_ffff_ffff_ffff_ffff_ffffint / d;
    lemma_div_is_ordered(n as int, 0xffff_ffff_ffff_ffff_ffff_ffff_ffff_ffffint, d);
    assert(qmax == 34028236692093846346337int);
    lemma_mul_inequality(q, qmax, e);
    lemma_mul_inequality(r, d - 1, m);
    assert(qmax * e + (d - 1) * m < big);
    assert(n as int * m == q * big + (q * e + r * m)) by (nonlinear_arith)
        requires
            n as int == d * q + r,
            e == m * d - big,
    ;
    lemma_fundamental_div_mod_converse(n as int * m, big, q, q * e + r * m);
}

/// Divides `n` by 10^16, returning the quotient and the remainder.
pub fn div_rem_1e16(n: u128) -> (r: (u128, u64))
    ensures
        r.0 as int == n as int / ten_pow_16(),
        r.1 as int == n as int % ten_pow_16(),
{
    // n.widening_mul(M_HIGH).1 >> SH_POST
    let hi = u128_mulhi(n, M_HIGH);
    let quot = hi >> SH_POST;
    proof {
        assert(quot == hi / 0x8_0000_0000_0000u128) by (bit_vector)
            requires quot == hi >> 51u32;
        lemma_div_denominator(n as int * M_HIGH as int, base128(), 0x8_0000_0000_0000int);
        assert(base128() * 0x8_0000_0000_0000int == two_pow_179());
        lemma_reciprocal_divides(n);
        lemma_fundamental_div_mod(n as int, ten_pow_16());
    }
    let rem = n - quot * D;
    (quot, rem as u64)
}

} // verus!
