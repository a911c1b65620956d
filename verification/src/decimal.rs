//! The decimal text of integers, as mathematical sequences of ASCII bytes,
//! and the facts about it that the formatting code relies on.
use vstd::arithmetic::div_mod::{
    lemma_basic_div, lemma_div_denominator, lemma_mod_breakdown, lemma_mod_mod,
    lemma_mod_pos_bound, lemma_small_mod,
};
use vstd::prelude::*;

verus! {

/// 10 to the power `k`.
pub open spec fn pow10(k: nat) -> nat
    decreases k,
{
    if k == 0 {
        1
    } else {
        10 * pow10((k - 1) as nat)
    }
}

/// The ASCII character of the decimal digit `d` (`0 <= d < 10`).
pub open spec fn ascii_digit(d: nat) -> u8 {
    (48 + d) as u8
}

/// The decimal digits of `n`, most significant first, without leading
/// zeros; zero is written as the single digit `0`.
pub open spec fn decimal_digits(n: nat) -> Seq<u8>
    decreases n,
{
    if n < 10 {
        seq![ascii_digit(n)]
    } else {
        decimal_digits(n / 10).push(ascii_digit(n % 10))
    }
}

/// The number of decimal digits of `n` (one for zero).
pub open spec fn digit_count(n: nat) -> nat {
    decimal_digits(n).len()
}

/// The decimal text of a signed integer: a `-` before the digits of its
/// magnitude when it is negative.
pub open spec fn decimal_text(v: int) -> Seq<u8> {
    if v < 0 {
        seq![45u8] + decimal_digits((-v) as nat)
    } else {
        decimal_digits(v as nat)
    }
}

/// The last `w` decimal digits of `n`, padded with zeros on the left.
pub open spec fn low_digits(n: nat, w: nat) -> Seq<u8>
    decreases w,
{
    if w == 0 {
        Seq::empty()
    } else {
        low_digits(n / 10, (w - 1) as nat).push(ascii_digit(n % 10))
    }
}

/// The number of significant decimal digits of `n` (zero for zero).
pub open spec fn significant_digits(n: nat) -> nat
    decreases n,
{
    if n == 0 {
        0
    } else {
        1 + significant_digits(n / 10)
    }
}

/// The number that a sequence of ASCII decimal digits reads as.
pub open spec fn digits_value(s: Seq<u8>) -> int
    decreases s.len(),
{
    if s.len() == 0 {
        0
    } else {
        digits_value(s.drop_last()) * 10 + (s.last() - 48)
    }
}

pub proof fn lemma_pow10_positive(k: nat)
    ensures
        pow10(k) >= 1,
    decreases k,
{
    if k > 0 {
        lemma_pow10_positive((k - 1) as nat);
    }
}

/// The powers of ten that the formatting code writes out.
pub proof fn lemma_pow10_values()
    ensures
        pow10(0) == 1,
        pow10(1) == 10,
        pow10(2) == 100,
        pow10(3) == 1000,
        pow10(4) == 10000,
        pow10(16) == 10000000000000000,
{
    reveal_with_fuel(pow10, 17);
}

pub proof fn lemma_pow10_add(a: nat, b: nat)
    ensures
        pow10(a + b) == pow10(a) * pow10(b),
    decreases b,
{
    if b > 0 {
        let b1 = (b - 1) as nat;
        lemma_pow10_add(a, b1);
        assert((a + b - 1) as nat == a + b1);
        let pa = pow10(a);
        let pb1 = pow10(b1);
        assert(pow10(a + b) == 10 * pow10(a + b1));
        assert(pow10(b) == 10 * pb1);
        assert(pa * (10 * pb1) == 10 * (pa * pb1)) by (nonlinear_arith);
    } else {
        assert(pow10(0) == 1);
        assert(a + b == a);
    }
}

/// Dividing by 10^k and then by 10^w divides by 10^(k + w).
pub proof fn lemma_div_pow10_chain(x: nat, k: nat, w: nat)
    ensures
        (x / pow10(k)) / pow10(w) == x / pow10(k + w),
{
    lemma_pow10_positive(k);
    lemma_pow10_positive(w);
    lemma_pow10_add(k, w);
    lemma_div_denominator(x as int, pow10(k) as int, pow10(w) as int);
}

pub proof fn lemma_low_digits_len(n: nat, w: nat)
    ensures
        low_digits(n, w).len() == w,
    decreases w,
{
    if w > 0 {
        lemma_low_digits_len(n / 10, (w - 1) as nat);
    }
}

/// The last `a + b` digits of `n` are the last `a` digits of `n / 10^b`
/// followed by the last `b` digits of `n`.
pub proof fn lemma_low_digits_split(n: nat, a: nat, b: nat)
    ensures
        low_digits(n, a + b) == low_digits(n / pow10(b), a) + low_digits(n, b),
    decreases b,
{
    if b == 0 {
        assert(low_digits(n / 1, a) + Seq::<u8>::empty() =~= low_digits(n, a));
    } else {
        let b1 = (b - 1) as nat;
        lemma_low_digits_split(n / 10, a, b1);
        lemma_div_pow10_chain(n, 1, b1);
        lemma_pow10_values();
        assert(1 + b1 == b);
        assert((a + b - 1) as nat == a + b1);
        assert(low_digits(n, a + b) == low_digits(n / 10, a + b1).push(ascii_digit(n % 10)));
        assert(low_digits(n, a + b) =~= low_digits(n / pow10(b), a) + low_digits(n, b));
    }
}

/// The last `w` digits of `n` depend only on `n % 10^w`.
pub proof fn lemma_low_digits_mod(n: nat, w: nat)
    ensures
        low_digits(n, w) == low_digits(n % pow10(w), w),
    decreases w,
{
    if w > 0 {
        let w1 = (w - 1) as nat;
        let p = pow10(w1);
        lemma_pow10_positive(w1);
        lemma_mod_breakdown(n as int, 10, p as int);
        lemma_mod_mod(n as int, 10, p as int);
        let m = n % pow10(w);
        lemma_mod_pos_bound(n as int, pow10(w) as int);
        lemma_mod_pos_bound(n as int, 10);
        assert(m / 10 == (n / 10) % p);
        lemma_low_digits_mod(n / 10, w1);
        lemma_low_digits_mod(m / 10, w1);
        lemma_mod_pos_bound((n / 10) as int, p as int);
        lemma_small_mod((m / 10) as nat, p);
    }
}

/// With at least `k` significant digits, `n` has `k` more of them than
/// `n / 10^k`.
pub proof fn lemma_significant_shift(n: nat, k: nat)
    requires
        k >= 1,
        n >= pow10((k - 1) as nat),
    ensures
        significant_digits(n) == k + significant_digits(n / pow10(k)),
    decreases k,
{
    lemma_pow10_positive((k - 1) as nat);
    if k == 1 {
        lemma_pow10_values();
    } else {
        let k1 = (k - 1) as nat;
        assert(pow10(k1) == 10 * pow10((k1 - 1) as nat));
        lemma_div_pow10_chain(n, 1, k1);
        lemma_pow10_values();
        assert(n / 10 >= pow10((k1 - 1) as nat));
        lemma_significant_shift(n / 10, k1);
    }
}

/// A number between 10^(k-1) and 10^k has `k` significant digits.
pub proof fn lemma_significant_from_bounds(n: nat, k: nat)
    requires
        k >= 1,
        pow10((k - 1) as nat) <= n < pow10(k),
    ensures
        significant_digits(n) == k,
{
    lemma_significant_shift(n, k);
    lemma_pow10_positive(k);
    lemma_basic_div(n as int, pow10(k) as int);
}

/// The digits of `n` are its last `digit_count(n)` digits, and there are
/// as many of them as significant digits (one for zero).
pub proof fn lemma_decimal_is_low_digits(n: nat)
    ensures
        decimal_digits(n) == low_digits(n, digit_count(n)),
        digit_count(n) == if n == 0 {
            1
        } else {
            significant_digits(n)
        },
    decreases n,
{
    if n < 10 {
        assert(low_digits(n / 10, 0) =~= Seq::<u8>::empty());
        assert(low_digits(n, 1) =~= seq![ascii_digit(n)]);
        assert(significant_digits(0) == 0);
        assert(n / 10 == 0);
    } else {
        lemma_decimal_is_low_digits(n / 10);
    }
}

/// After the last `k` digits of `x`, the next `w` digits are the last `w`
/// digits of `x / 10^k`.
pub proof fn lemma_next_digits(x: nat, k: nat, w: nat)
    ensures
        low_digits(x, w + k) == low_digits((x / pow10(k)) % pow10(w), w) + low_digits(x, k),
        (x / pow10(k)) / pow10(w) == x / pow10(k + w),
{
    lemma_low_digits_split(x, w, k);
    lemma_low_digits_mod(x / pow10(k), w);
    lemma_div_pow10_chain(x, k, w);
}

/// Whether every byte of `s` is an ASCII decimal digit.
pub open spec fn all_ascii_digits(s: Seq<u8>) -> bool {
    forall|i: int| 0 <= i < s.len() ==> 48 <= #[trigger] s[i] <= 57
}

/// The number that a decimal text reads as: a leading `-` negates the
/// digits that follow it.
pub open spec fn text_value(s: Seq<u8>) -> int {
    if s.len() > 0 && s[0] == 45 {
        -digits_value(s.drop_first())
    } else {
        digits_value(s)
    }
}

/// The digits of a number are ASCII decimal digits, at least one of
/// them, and the first is not `0` unless the number is zero.
pub proof fn lemma_decimal_digits_well_formed(n: nat)
    ensures
        decimal_digits(n).len() >= 1,
        all_ascii_digits(decimal_digits(n)),
        decimal_digits(n)[0] == 48 ==> n == 0,
    decreases n,
{
    if n >= 10 {
        lemma_decimal_digits_well_formed(n / 10);
        assert(decimal_digits(n)[0] == decimal_digits(n / 10)[0]);
    }
}

/// Reading the digits of `n` back gives `n`.
pub proof fn lemma_decimal_digits_value(n: nat)
    ensures
        digits_value(decimal_digits(n)) == n,
    decreases n,
{
    assert(digits_value(Seq::<u8>::empty()) == 0);
    if n < 10 {
        assert(decimal_digits(n).drop_last() =~= Seq::<u8>::empty());
    } else {
        lemma_decimal_digits_value(n / 10);
        assert(decimal_digits(n).drop_last() =~= decimal_digits(n / 10));
    }
}

/// The digits of `n` are the only digit text without leading zeros that
/// reads as `n`: the decimal text of a number is unique.
pub proof fn lemma_decimal_digits_unique(s: Seq<u8>, n: nat)
    requires
        s.len() >= 1,
        all_ascii_digits(s),
        s[0] == 48 ==> s.len() == 1,
        digits_value(s) == n,
    ensures
        s == decimal_digits(n),
    decreases s.len(),
{
    if s.len() == 1 {
        assert(s.drop_last() =~= Seq::<u8>::empty());
        assert(digits_value(Seq::<u8>::empty()) == 0);
        assert(decimal_digits(n) =~= s);
    } else {
        let prefix = s.drop_last();
        assert(prefix[0] == s[0]);
        assert(all_ascii_digits(prefix)) by {
            assert forall|i: int| 0 <= i < prefix.len() implies 48 <= #[trigger] prefix[i] <= 57 by {
                assert(prefix[i] == s[i]);
            }
        }
        let m = digits_value(prefix);
        assert(m >= 0) by {
            lemma_digits_value_nonnegative(prefix);
        }
        lemma_decimal_digits_unique(prefix, m as nat);
        assert(m != 0);
        assert(n / 10 == m && n % 10 == s.last() - 48);
        assert(decimal_digits(n) =~= prefix.push(s.last()));
        assert(s =~= prefix.push(s.last()));
    }
}

/// A digit text reads as a natural number.
pub proof fn lemma_digits_value_nonnegative(s: Seq<u8>)
    requires
        all_ascii_digits(s),
    ensures
        digits_value(s) >= 0,
    decreases s.len(),
{
    if s.len() > 0 {
        let prefix = s.drop_last();
        assert(all_ascii_digits(prefix)) by {
            assert forall|i: int| 0 <= i < prefix.len() implies 48 <= #[trigger] prefix[i] <= 57 by {
                assert(prefix[i] == s[i]);
            }
        }
        lemma_digits_value_nonnegative(prefix);
        assert(s[s.len() - 1] >= 48);
    }
}

/// A number with `k` digits lies between 10^(k-1) (or 0) and 10^k.
pub proof fn lemma_digit_count_bounds(n: nat)
    ensures
        n < pow10(digit_count(n)),
        n >= 1 ==> pow10((digit_count(n) - 1) as nat) <= n,
    decreases n,
{
    lemma_pow10_values();
    if n >= 10 {
        lemma_digit_count_bounds(n / 10);
        assert(digit_count(n) == digit_count(n / 10) + 1);
        assert(pow10(digit_count(n)) == 10 * pow10(digit_count(n / 10)));
        if n / 10 >= 10 {
            assert(pow10((digit_count(n) - 1) as nat) == 10 * pow10(
                (digit_count(n / 10) - 1) as nat,
            ));
        } else {
            assert(digit_count(n / 10) == 1);
        }
    }
}

/// Reading the decimal text of `v` back gives `v`.
pub proof fn lemma_decimal_text_value(v: int)
    ensures
        text_value(decimal_text(v)) == v,
{
    if v < 0 {
        let d = decimal_digits((-v) as nat);
        lemma_decimal_digits_value((-v) as nat);
        assert((seq![45u8] + d).drop_first() =~= d);
    } else {
        lemma_decimal_digits_value(v as nat);
        lemma_decimal_digits_well_formed(v as nat);
    }
}

} // verus!
