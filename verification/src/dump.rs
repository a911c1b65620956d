//! Writing the decimal digits of unsigned integers into byte slices.
use crate::bits::{
    bit_len, lemma_bit_len_bounds, lemma_bit_len_or_one, lemma_log10_estimate, lemma_power_values,
    lemma_u64_leading_zeros, u128_leading_zeros,
};
use crate::decimal::{
    ascii_digit, decimal_digits, digit_count, lemma_decimal_is_low_digits, lemma_low_digits_len,
    lemma_low_digits_mod, lemma_next_digits, lemma_pow10_values, lemma_significant_from_bounds,
    lemma_significant_shift, low_digits, pow10, significant_digits,
};
use crate::wide::div_rem_1e16;
use vstd::prelude::*;

verus! {

/// Entry `t` is 10^t, the least number of `t + 1` digits, except that
/// entry 0 is 0 so that zero counts as one digit.
const POWERS_U64: [u64; 20] = [
    0, 10, 100, 1000, 10000, 100000, 1000000, 10000000, 100000000, 1000000000, 10000000000,
    100000000000, 1000000000000, 10000000000000, 100000000000000, 1000000000000000,
    10000000000000000, 100000000000000000, 1000000000000000000, 10000000000000000000,
];

/// Entry `t` is 10^t, the least number of `t + 1` digits, except that
/// entry 0 is 0 so that zero counts as one digit.
const POWERS_U128: [u128; 39] = [
    0, 10, 100, 1000, 10000, 100000, 1000000, 10000000, 100000000, 1000000000, 10000000000,
    100000000000, 1000000000000, 10000000000000, 100000000000000, 1000000000000000,
    10000000000000000, 100000000000000000, 1000000000000000000, 10000000000000000000,
    100000000000000000000, 1000000000000000000000, 10000000000000000000000,
    100000000000000000000000, 1000000000000000000000000, 10000000000000000000000000,
    100000000000000000000000000, 1000000000000000000000000000, 10000000000000000000000000000,
    100000000000000000000000000000, 1000000000000000000000000000000,
    10000000000000000000000000000000, 100000000000000000000000000000000,
    1000000000000000000000000000000000, 10000000000000000000000000000000000,
    100000000000000000000000000000000000, 1000000000000000000000000000000000000,
    10000000000000000000000000000000000000, 100000000000000000000000000000000000000,
];

/// The ASCII digits of 00, 01, ..., 99, two bytes each.
const DECIMAL_PAIRS: [u8; 200] = [
    48, 48, 48, 49, 48, 50, 48, 51, 48, 52, 48, 53, 48, 54, 48, 55, 48, 56, 48, 57,
    49, 48, 49, 49, 49, 50, 49, 51, 49, 52, 49, 53, 49, 54, 49, 55, 49, 56, 49, 57,
    50, 48, 50, 49, 50, 50, 50, 51, 50, 52, 50, 53, 50, 54, 50, 55, 50, 56, 50, 57,
    51, 48, 51, 49, 51, 50, 51, 51, 51, 52, 51, 53, 51, 54, 51, 55, 51, 56, 51, 57,
    52, 48, 52, 49, 52, 50, 52, 51, 52, 52, 52, 53, 52, 54, 52, 55, 52, 56, 52, 57,
    53, 48, 53, 49, 53, 50, 53, 51, 53, 52, 53, 53, 53, 54, 53, 55, 53, 56, 53, 57,
    54, 48, 54, 49, 54, 50, 54, 51, 54, 52, 54, 53, 54, 54, 54, 55, 54, 56, 54, 57,
    55, 48, 55, 49, 55, 50, 55, 51, 55, 52, 55, 53, 55, 54, 55, 55, 55, 56, 55, 57,
    56, 48, 56, 49, 56, 50, 56, 51, 56, 52, 56, 53, 56, 54, 56, 55, 56, 56, 56, 57,
    57, 48, 57, 49, 57, 50, 57, 51, 57, 52, 57, 53, 57, 54, 57, 55, 57, 56, 57, 57,
];

/// Byte `p` of the two-digit table: the tens digit of `p / 2` when `p` is
/// even, its units digit when `p` is odd.
fn digit(p: usize) -> (r: u8)
    requires
        p < 200,
    ensures
        r == ascii_digit(if p % 2 == 0 { (p / 2) / 10 } else { (p / 2) % 10 } as nat),
{
    DECIMAL_PAIRS[p]
}

/// Writes the two digits of `pair` at `offset`.
fn put_pair(buf: &mut [u8], offset: usize, pair: usize)
    requires
        pair < 100,
        offset + 2 <= old(buf).len(),
    ensures
        final(buf)@.len() == old(buf)@.len(),
        final(buf)@ == old(buf)@.subrange(0, offset as int) + low_digits(pair as nat, 2)
            + old(buf)@.subrange(offset + 2, old(buf)@.len() as int),
{
    buf[offset] = digit(pair * 2);
    buf[offset + 1] = digit(pair * 2 + 1);
    proof {
        reveal_with_fuel(low_digits, 3);
        assert(buf@ =~= old(buf)@.subrange(0, offset as int) + low_digits(pair as nat, 2)
            + old(buf)@.subrange(offset + 2, old(buf)@.len() as int));
    }
}

/// Writes the four digits of `quad` at `offset`.
fn put_quad(buf: &mut [u8], offset: usize, quad: usize)
    requires
        quad < 10000,
        offset + 4 <= old(buf).len(),
    ensures
        final(buf)@.len() == old(buf)@.len(),
        final(buf)@ == old(buf)@.subrange(0, offset as int) + low_digits(quad as nat, 4)
            + old(buf)@.subrange(offset + 4, old(buf)@.len() as int),
{
    let pair1 = quad / 100;
    let pair2 = quad % 100;
    put_pair(buf, offset, pair1);
    put_pair(buf, offset + 2, pair2);
    proof {
        lemma_pow10_values();
        lemma_next_digits(quad as nat, 2, 2);
        lemma_low_digits_mod(quad as nat, 2);
        assert(buf@ =~= old(buf)@.subrange(0, offset as int) + low_digits(quad as nat, 4)
            + old(buf)@.subrange(offset + 4, old(buf)@.len() as int));
    }
}

/// Writes the decimal digits of `x` into `buf`, which must hold exactly
/// as many bytes as `x` has digits.
pub fn dump_u64(x: u64, buf: &mut [u8])
    requires
        old(buf)@.len() == digit_count(x as nat),
    ensures
        final(buf)@ == decimal_digits(x as nat),
{
    let ghost len = buf@.len();
    let mut offset = buf.len();
    let mut remain = x;
    proof {
        assert(offset == len);
        lemma_decimal_is_low_digits(x as nat);
        lemma_pow10_values();
        assert(x as nat / pow10(0) == x as nat);
        assert(old(buf)@.subrange(0, len as int) + low_digits(x as nat, 0) =~= old(buf)@);
    }

    // Format per two digits from the lookup table.
    while remain >= 1000
        invariant
            len == buf@.len() == old(buf)@.len() == digit_count(x as nat),
            digit_count(x as nat) == if x == 0 {
                1
            } else {
                significant_digits(x as nat)
            },
            offset <= len,
            remain as nat == x as nat / pow10((len - offset) as nat),
            significant_digits(x as nat) == (len - offset) + significant_digits(remain as nat),
            buf@ == old(buf)@.subrange(0, offset as int) + low_digits(
                x as nat,
                (len - offset) as nat,
            ),
        decreases remain,
    {
        let ghost done = (len - offset) as nat;
        let ghost before = buf@;
        proof {
            lemma_pow10_values();
            lemma_significant_shift(remain as nat, 4);
            lemma_next_digits(x as nat, done, 4);
            lemma_low_digits_len(x as nat, done);
        }
        offset -= 4;

        // pull two pairs
        let quad = (remain % 10000) as usize;
        remain /= 10000;
        put_quad(buf, offset, quad);
        proof {
            assert(before.subrange(0, offset as int) =~= old(buf)@.subrange(0, offset as int));
            assert(before.subrange(offset + 4, len as int) =~= low_digits(x as nat, done));
            assert((4 + done) as nat == (len - offset) as nat);
            assert(buf@ =~= old(buf)@.subrange(0, offset as int) + low_digits(
                x as nat,
                (len - offset) as nat,
            ));
        }
    }
    if remain >= 10 {
        let ghost done = (len - offset) as nat;
        let ghost before = buf@;
        proof {
            lemma_pow10_values();
            lemma_significant_shift(remain as nat, 2);
            lemma_next_digits(x as nat, done, 2);
            lemma_low_digits_len(x as nat, done);
        }
        offset -= 2;

        let pair = remain as usize % 100;
        remain = remain / 100;
        put_pair(buf, offset, pair);
        proof {
            assert(before.subrange(0, offset as int) =~= old(buf)@.subrange(0, offset as int));
            assert(before.subrange(offset + 2, len as int) =~= low_digits(x as nat, done));
            assert((2 + done) as nat == (len - offset) as nat);
            assert(buf@ =~= old(buf)@.subrange(0, offset as int) + low_digits(
                x as nat,
                (len - offset) as nat,
            ));
        }
    }
    // Format the last remaining digit, if any.
    if remain != 0 || x == 0 {
        let ghost done = (len - offset) as nat;
        let ghost before = buf@;
        proof {
            lemma_pow10_values();
            if remain != 0 {
                lemma_significant_shift(remain as nat, 1);
            }
            lemma_next_digits(x as nat, done, 1);
            lemma_low_digits_len(x as nat, done);
            reveal_with_fuel(low_digits, 2);
        }
        offset -= 1;
        buf[offset] = 48u8 + remain as u8;
        proof {
            assert(buf@ =~= old(buf)@.subrange(0, offset as int) + low_digits(
                x as nat,
                (len - offset) as nat,
            ));
        }
    }
    proof {
        assert(offset == 0);
        assert(old(buf)@.subrange(0, 0) + low_digits(x as nat, len as nat) =~= low_digits(
            x as nat,
            len as nat,
        ));
    }
}

/// How the digit count follows from a bit-length estimate: a number of
/// bit length `b` has `t` or `t + 1` digits, `t + 1` exactly when it
/// reaches `power` (which is 10^t, or 0 when `t` is 0).
proof fn lemma_len_from_estimate(x: nat, b: nat, t: nat, power: nat)
    requires
        1 <= b <= 128,
        t == b * 1233 / 4096,
        power == if t == 0 {
            0
        } else {
            pow10(t)
        },
        x == 0 ==> b == 1,
        x >= 1 ==> bit_len(x) == b,
    ensures
        digit_count(x) == if x >= power {
            t + 1
        } else {
            t
        },
{
    lemma_decimal_is_low_digits(x);
    lemma_log10_estimate(b);
    lemma_pow10_values();
    if x >= 1 {
        lemma_bit_len_bounds(x);
        if x >= power {
            lemma_significant_from_bounds(x, t + 1);
        } else {
            lemma_significant_from_bounds(x, t);
        }
    }
}

/// The number of decimal digits of `x`.
pub fn dump_len_u64(x: u64) -> (r: usize)
    ensures
        r == digit_count(x as nat),
        r <= 20,
{
    let b = u64::BITS - (x | 1).leading_zeros();
    proof {
        vstd::std_specs::bits::axiom_u64_leading_zeros(x | 1);
        lemma_u64_leading_zeros(x | 1);
        lemma_bit_len_or_one(x);
    }
    let t = (b as usize * 1233) >> 12;
    proof {
        let v = (b as usize * 1233) as usize;
        assert(v >> 12 == v / 4096) by (bit_vector);
        lemma_power_values();
        lemma_len_from_estimate(x as nat, b as nat, t as nat, POWERS_U64[t as int] as nat);
    }
    t + (x >= POWERS_U64[t]) as usize
}

/// The number of decimal digits of `x`.
pub fn dump_len_u128(x: u128) -> (r: usize)
    ensures
        r == digit_count(x as nat),
        r <= 39,
{
    let b = 128 - u128_leading_zeros(x | 1);
    proof {
        assert((x | 1) / 2 == x / 2 && (x | 1) >= 1) by (bit_vector);
        assert(bit_len(0) == 0);
        lemma_bit_len_bounds((x | 1) as nat);
    }
    let t = (b as usize * 1233) >> 12;
    proof {
        let v = (b as usize * 1233) as usize;
        assert(v >> 12 == v / 4096) by (bit_vector);
        lemma_power_values();
        lemma_len_from_estimate(x as nat, b as nat, t as nat, POWERS_U128[t as int] as nat);
    }
    t + (x >= POWERS_U128[t]) as usize
}

/// Writes the decimal digits of `x` into `buf`, which must hold exactly
/// as many bytes as `x` has digits.
pub fn dump_u128(x: u128, buf: &mut [u8])
    requires
        old(buf)@.len() == digit_count(x as nat),
    ensures
        final(buf)@ == decimal_digits(x as nat),
{
    let ghost len = buf@.len();
    let mut offset = buf.len();
    let mut remain = x;
    proof {
        assert(offset == len);
        lemma_decimal_is_low_digits(x as nat);
        lemma_pow10_values();
        assert(x as nat / pow10(0) == x as nat);
        assert(old(buf)@.subrange(0, len as int) + low_digits(x as nat, 0) =~= old(buf)@);
    }

    loop
        invariant
            len == buf@.len() == old(buf)@.len() == digit_count(x as nat),
            digit_count(x as nat) == if x == 0 {
                1
            } else {
                significant_digits(x as nat)
            },
            offset <= len,
            offset < len ==> remain >= 1,
            remain as nat == x as nat / pow10((len - offset) as nat),
            significant_digits(x as nat) == (len - offset) + significant_digits(remain as nat),
            buf@ == old(buf)@.subrange(0, offset as int) + low_digits(
                x as nat,
                (len - offset) as nat,
            ),
        decreases remain,
    {
        if let Ok(n64) = u64::try_from(remain) {
            let ghost done = (len - offset) as nat;
            let ghost before = buf@;
            proof {
                lemma_decimal_is_low_digits(remain as nat);
                lemma_next_digits(x as nat, done, offset as nat);
                lemma_low_digits_mod(remain as nat, offset as nat);
                assert(offset + done == len);
            }
            let (head, _) = buf.split_at_mut(offset);
            dump_u64(n64, head);
            proof {
                assert(buf@ =~= low_digits(x as nat, len as nat));
                lemma_decimal_is_low_digits(x as nat);
            }
            return;
        }
        // Take the 16 least-significant decimals.

        let ghost done = (len - offset) as nat;
        proof {
            lemma_pow10_values();
            lemma_significant_shift(remain as nat, 16);
            lemma_next_digits(x as nat, done, 16);
            lemma_low_digits_len(x as nat, done);
        }
        let (quot_1e16, mut mod_1e16) = div_rem_1e16(remain);
        let ghost chunk = mod_1e16 as nat;
        let ghost chunk_end = offset;
        proof {
            assert(chunk / pow10(0) == chunk);
            assert(old(buf)@.subrange(0, offset as int) + low_digits(chunk, 0) + low_digits(
                x as nat,
                done,
            ) =~= buf@);
        }
        for i in 0..4
            invariant
                len == buf@.len() == old(buf)@.len(),
                chunk < pow10(16),
                chunk_end == len - done,
                chunk_end >= 17,
                offset == chunk_end - 4 * i,
                mod_1e16 as nat == chunk / pow10(4 * i as nat),
                buf@ == old(buf)@.subrange(0, offset as int) + low_digits(chunk, 4 * i as nat)
                    + low_digits(x as nat, done),
                low_digits(x as nat, done).len() == done,
        {
            let ghost written = (4 * i) as nat;
            let ghost before = buf@;
            proof {
                lemma_pow10_values();
                lemma_next_digits(chunk, written, 4);
                lemma_low_digits_len(chunk, written);
            }
            offset -= 4;

            // pull two pairs
            let quad = (mod_1e16 % 1_00_00) as usize;
            mod_1e16 /= 1_00_00;
            put_quad(buf, offset, quad);
            proof {
                assert(before.subrange(0, offset as int) =~= old(buf)@.subrange(0, offset as int));
                assert(before.subrange(offset + 4, len as int) =~= low_digits(chunk, written)
                    + low_digits(x as nat, done));
                assert((4 + written) as nat == (4 * (i + 1)) as nat);
                assert(buf@ =~= old(buf)@.subrange(0, offset as int) + low_digits(
                    chunk,
                    (4 * (i + 1)) as nat,
                ) + low_digits(x as nat, done));
            }
        }
        proof {
            lemma_low_digits_mod(remain as nat, 16);
            assert(buf@ =~= old(buf)@.subrange(0, offset as int) + low_digits(
                x as nat,
                (len - offset) as nat,
            ));
        }

        remain = quot_1e16;
    }
}

} // verus!
