//! Bit lengths, and how the bit length of a number bounds its number
//! of decimal digits.
use crate::decimal::pow10;
use vstd::prelude::*;
use vstd::std_specs::bits::u64_leading_zeros;

verus! {

/// 2 to the power `k`.
pub open spec fn two_pow(k: nat) -> nat
    decreases k,
{
    if k == 0 {
        1
    } else {
        2 * two_pow((k - 1) as nat)
    }
}

/// The number of binary digits of `n` (zero for zero).
pub open spec fn bit_len(n: nat) -> nat
    decreases n,
{
    if n == 0 {
        0
    } else {
        1 + bit_len(n / 2)
    }
}

pub proof fn lemma_two_pow_monotonic(a: nat, b: nat)
    requires
        a <= b,
    ensures
        two_pow(a) <= two_pow(b),
    decreases b,
{
    if a < b {
        lemma_two_pow_monotonic(a, (b - 1) as nat);
    }
}

/// A positive `n` lies between 2^(bit_len(n) - 1) and 2^bit_len(n).
pub proof fn lemma_bit_len_bounds(n: nat)
    requires
        n >= 1,
    ensures
        1 <= bit_len(n),
        two_pow((bit_len(n) - 1) as nat) <= n < two_pow(bit_len(n)),
    decreases n,
{
    if n == 1 {
        assert(bit_len(0) == 0);
        assert(two_pow(0) == 1);
        assert(two_pow(1) == 2);
    } else {
        lemma_bit_len_bounds(n / 2);
        assert(bit_len(n) == 1 + bit_len(n / 2));
    }
}

/// Setting the lowest bit of a positive number keeps its bit length.
pub proof fn lemma_bit_len_or_one(x: u64)
    ensures
        bit_len((x | 1) as nat) == if x == 0 {
            1
        } else {
            bit_len(x as nat)
        },
{
    assert((x | 1) / 2 == x / 2 && (x | 1) >= 1) by (bit_vector);
    assert(bit_len(0) == 0);
}

/// `leading_zeros` of a `u64` is 64 minus its bit length.
pub proof fn lemma_u64_leading_zeros(i: u64)
    ensures
        u64_leading_zeros(i) == 64 - bit_len(i as nat),
    decreases i,
{
    reveal(u64_leading_zeros);
    if i != 0 {
        lemma_u64_leading_zeros(i / 2);
    }
}

/// The powers of two and of ten that the digit-count tables hold or bound.
pub proof fn lemma_power_values()
    ensures
        two_pow(3) == 8,
        two_pow(6) == 64,
        two_pow(9) == 512,
        two_pow(13) == 8192,
        two_pow(16) == 65536,
        two_pow(19) == 524288,
        two_pow(23) == 8388608,
        two_pow(26) == 67108864,
        two_pow(29) == 536870912,
        two_pow(33) == 8589934592,
        two_pow(36) == 68719476736,
        two_pow(39) == 549755813888,
        two_pow(43) == 8796093022208,
        two_pow(46) == 70368744177664,
        two_pow(49) == 562949953421312,
        two_pow(53) == 9007199254740992,
        two_pow(56) == 72057594037927936,
        two_pow(59) == 576460752303423488,
        two_pow(63) == 9223372036854775808,
        two_pow(66) == 73786976294838206464,
        two_pow(69) == 590295810358705651712,
        two_pow(73) == 9444732965739290427392,
        two_pow(76) == 75557863725914323419136,
        two_pow(79) == 604462909807314587353088,
        two_pow(83) == 9671406556917033397649408,
        two_pow(86) == 77371252455336267181195264,
        two_pow(89) == 618970019642690137449562112,
        two_pow(93) == 9903520314283042199192993792,
        two_pow(96) == 79228162514264337593543950336,
        two_pow(99) == 633825300114114700748351602688,
        two_pow(102) == 5070602400912917605986812821504,
        two_pow(106) == 81129638414606681695789005144064,
        two_pow(109) == 649037107316853453566312041152512,
        two_pow(112) == 5192296858534827628530496329220096,
        two_pow(116) == 83076749736557242056487941267521536,
        two_pow(119) == 664613997892457936451903530140172288,
        two_pow(122) == 5316911983139663491615228241121378304,
        two_pow(126) == 85070591730234615865843651857942052864,
        two_pow(128) == 340282366920938463463374607431768211456,
        pow10(0) == 1,
        pow10(1) == 10,
        pow10(2) == 100,
        pow10(3) == 1000,
        pow10(4) == 10000,
        pow10(5) == 100000,
        pow10(6) == 1000000,
        pow10(7) == 10000000,
        pow10(8) == 100000000,
        pow10(9) == 1000000000,
        pow10(10) == 10000000000,
        pow10(11) == 100000000000,
        pow10(12) == 1000000000000,
        pow10(13) == 10000000000000,
        pow10(14) == 100000000000000,
        pow10(15) == 1000000000000000,
        pow10(16) == 10000000000000000,
        pow10(17) == 100000000000000000,
        pow10(18) == 1000000000000000000,
        pow10(19) == 10000000000000000000,
        pow10(20) == 100000000000000000000,
        pow10(21) == 1000000000000000000000,
        pow10(22) == 10000000000000000000000,
        pow10(23) == 100000000000000000000000,
        pow10(24) == 1000000000000000000000000,
        pow10(25) == 10000000000000000000000000,
        pow10(26) == 100000000000000000000000000,
        pow10(27) == 1000000000000000000000000000,
        pow10(28) == 10000000000000000000000000000,
        pow10(29) == 100000000000000000000000000000,
        pow10(30) == 1000000000000000000000000000000,
        pow10(31) == 10000000000000000000000000000000,
        pow10(32) == 100000000000000000000000000000000,
        pow10(33) == 1000000000000000000000000000000000,
        pow10(34) == 10000000000000000000000000000000000,
        pow10(35) == 100000000000000000000000000000000000,
        pow10(36) == 1000000000000000000000000000000000000,
        pow10(37) == 10000000000000000000000000000000000000,
        pow10(38) == 100000000000000000000000000000000000000,
        pow10(39) == 1000000000000000000000000000000000000000,
{
    reveal_with_fuel(two_pow, 5);
    assert(two_pow(3) == 8);
    assert(two_pow(6) == 64);
    assert(two_pow(9) == 512);
    assert(two_pow(13) == 8192);
    assert(two_pow(16) == 65536);
    assert(two_pow(19) == 524288);
    assert(two_pow(23) == 8388608);
    assert(two_pow(26) == 67108864);
    assert(two_pow(29) == 536870912);
    assert(two_pow(33) == 8589934592);
    assert(two_pow(36) == 68719476736);
    assert(two_pow(39) == 549755813888);
    assert(two_pow(43) == 8796093022208);
    assert(two_pow(46) == 70368744177664);
    assert(two_pow(49) == 562949953421312);
    assert(two_pow(53) == 9007199254740992);
    assert(two_pow(56) == 72057594037927936);
    assert(two_pow(59) == 576460752303423488);
    assert(two_pow(63) == 9223372036854775808);
    assert(two_pow(66) == 73786976294838206464);
    assert(two_pow(69) == 590295810358705651712);
    assert(two_pow(73) == 9444732965739290427392);
    assert(two_pow(76) == 75557863725914323419136);
    assert(two_pow(79) == 604462909807314587353088);
    assert(two_pow(83) == 9671406556917033397649408);
    assert(two_pow(86) == 77371252455336267181195264);
    assert(two_pow(89) == 618970019642690137449562112);
    assert(two_pow(93) == 9903520314283042199192993792);
    assert(two_pow(96) == 79228162514264337593543950336);
    assert(two_pow(99) == 633825300114114700748351602688);
    assert(two_pow(102) == 5070602400912917605986812821504);
    assert(two_pow(106) == 81129638414606681695789005144064);
    assert(two_pow(109) == 649037107316853453566312041152512);
    assert(two_pow(112) == 5192296858534827628530496329220096);
    assert(two_pow(116) == 83076749736557242056487941267521536);
    assert(two_pow(119) == 664613997892457936451903530140172288);
    assert(two_pow(122) == 5316911983139663491615228241121378304);
    assert(two_pow(126) == 85070591730234615865843651857942052864);
    assert(two_pow(128) == 340282366920938463463374607431768211456);
    reveal_with_fuel(pow10, 2);
    assert(pow10(0) == 1);
    assert(pow10(1) == 10);
    assert(pow10(2) == 100);
    assert(pow10(3) == 1000);
    assert(pow10(4) == 10000);
    assert(pow10(5) == 100000);
    assert(pow10(6) == 1000000);
    assert(pow10(7) == 10000000);
    assert(pow10(8) == 100000000);
    assert(pow10(9) == 1000000000);
    assert(pow10(10) == 10000000000);
    assert(pow10(11) == 100000000000);
    assert(pow10(12) == 1000000000000);
    assert(pow10(13) == 10000000000000);
    assert(pow10(14) == 100000000000000);
    assert(pow10(15) == 1000000000000000);
    assert(pow10(16) == 10000000000000000);
    assert(pow10(17) == 100000000000000000);
    assert(pow10(18) == 1000000000000000000);
    assert(pow10(19) == 10000000000000000000);
    assert(pow10(20) == 100000000000000000000);
    assert(pow10(21) == 1000000000000000000000);
    assert(pow10(22) == 10000000000000000000000);
    assert(pow10(23) == 100000000000000000000000);
    assert(pow10(24) == 1000000000000000000000000);
    assert(pow10(25) == 10000000000000000000000000);
    assert(pow10(26) == 100000000000000000000000000);
    assert(pow10(27) == 1000000000000000000000000000);
    assert(pow10(28) == 10000000000000000000000000000);
    assert(pow10(29) == 100000000000000000000000000000);
    assert(pow10(30) == 1000000000000000000000000000000);
    assert(pow10(31) == 10000000000000000000000000000000);
    assert(pow10(32) == 100000000000000000000000000000000);
    assert(pow10(33) == 1000000000000000000000000000000000);
    assert(pow10(34) == 10000000000000000000000000000000000);
    assert(pow10(35) == 100000000000000000000000000000000000);
    assert(pow10(36) == 1000000000000000000000000000000000000);
    assert(pow10(37) == 10000000000000000000000000000000000000);
    assert(pow10(38) == 100000000000000000000000000000000000000);
    assert(pow10(39) == 1000000000000000000000000000000000000000);
}

/// With `t = (b * 1233) >> 12` (about `b * log10(2)`), every number of
/// bit length `b` is below 10^(t + 1) and, when `t >= 1`, at least
/// 10^(t - 1).
pub proof fn lemma_log10_estimate(b: nat)
    requires
        1 <= b <= 128,
    ensures
        two_pow(b) <= pow10(b * 1233 / 4096 + 1),
        b * 1233 / 4096 >= 1 ==> pow10((b * 1233 / 4096 - 1) as nat) <= two_pow((b - 1) as nat),
{
    lemma_power_values();
    if b <= 3 {
        lemma_two_pow_monotonic(b, 3);
    } else if b <= 6 {
        lemma_two_pow_monotonic(b, 6); lemma_two_pow_monotonic(3, (b - 1) as nat);
    } else if b <= 9 {
        lemma_two_pow_monotonic(b, 9); lemma_two_pow_monotonic(6, (b - 1) as nat);
    } else if b <= 13 {
        lemma_two_pow_monotonic(b, 13); lemma_two_pow_monotonic(9, (b - 1) as nat);
    } else if b <= 16 {
        lemma_two_pow_monotonic(b, 16); lemma_two_pow_monotonic(13, (b - 1) as nat);
    } else if b <= 19 {
        lemma_two_pow_monotonic(b, 19); lemma_two_pow_monotonic(16, (b - 1) as nat);
    } else if b <= 23 {
        lemma_two_pow_monotonic(b, 23); lemma_two_pow_monotonic(19, (b - 1) as nat);
    } else if b <= 26 {
        lemma_two_pow_monotonic(b, 26); lemma_two_pow_monotonic(23, (b - 1) as nat);
    } else if b <= 29 {
        lemma_two_pow_monotonic(b, 29); lemma_two_pow_monotonic(26, (b - 1) as nat);
    } else if b <= 33 {
        lemma_two_pow_monotonic(b, 33); lemma_two_pow_monotonic(29, (b - 1) as nat);
    } else if b <= 36 {
        lemma_two_pow_monotonic(b, 36); lemma_two_pow_monotonic(33, (b - 1) as nat);
    } else if b <= 39 {
        lemma_two_pow_monotonic(b, 39); lemma_two_pow_monotonic(36, (b - 1) as nat);
    } else if b <= 43 {
        lemma_two_pow_monotonic(b, 43); lemma_two_pow_monotonic(39, (b - 1) as nat);
    } else if b <= 46 {
        lemma_two_pow_monotonic(b, 46); lemma_two_pow_monotonic(43, (b - 1) as nat);
    } else if b <= 49 {
        lemma_two_pow_monotonic(b, 49); lemma_two_pow_monotonic(46, (b - 1) as nat);
    } else if b <= 53 {
        lemma_two_pow_monotonic(b, 53); lemma_two_pow_monotonic(49, (b - 1) as nat);
    } else if b <= 56 {
        lemma_two_pow_monotonic(b, 56); lemma_two_pow_monotonic(53, (b - 1) as nat);
    } else if b <= 59 {
        lemma_two_pow_monotonic(b, 59); lemma_two_pow_monotonic(56, (b - 1) as nat);
    } else if b <= 63 {
        lemma_two_pow_monotonic(b, 63); lemma_two_pow_monotonic(59, (b - 1) as nat);
    } else if b <= 66 {
        lemma_two_pow_monotonic(b, 66); lemma_two_pow_monotonic(63, (b - 1) as nat);
    } else if b <= 69 {
        lemma_two_pow_monotonic(b, 69); lemma_two_pow_monotonic(66, (b - 1) as nat);
    } else if b <= 73 {
        lemma_two_pow_monotonic(b, 73); lemma_two_pow_monotonic(69, (b - 1) as nat);
    } else if b <= 76 {
        lemma_two_pow_monotonic(b, 76); lemma_two_pow_monotonic(73, (b - 1) as nat);
    } else if b <= 79 {
        lemma_two_pow_monotonic(b, 79); lemma_two_pow_monotonic(76, (b - 1) as nat);
    } else if b <= 83 {
        lemma_two_pow_monotonic(b, 83); lemma_two_pow_monotonic(79, (b - 1) as nat);
    } else if b <= 86 {
        lemma_two_pow_monotonic(b, 86); lemma_two_pow_monotonic(83, (b - 1) as nat);
    } else if b <= 89 {
        lemma_two_pow_monotonic(b, 89); lemma_two_pow_monotonic(86, (b - 1) as nat);
    } else if b <= 93 {
        lemma_two_pow_monotonic(b, 93); lemma_two_pow_monotonic(89, (b - 1) as nat);
    } else if b <= 96 {
        lemma_two_pow_monotonic(b, 96); lemma_two_pow_monotonic(93, (b - 1) as nat);
    } else if b <= 99 {
        lemma_two_pow_monotonic(b, 99); lemma_two_pow_monotonic(96, (b - 1) as nat);
    } else if b <= 102 {
        lemma_two_pow_monotonic(b, 102); lemma_two_pow_monotonic(99, (b - 1) as nat);
    } else if b <= 106 {
        lemma_two_pow_monotonic(b, 106); lemma_two_pow_monotonic(102, (b - 1) as nat);
    } else if b <= 109 {
        lemma_two_pow_monotonic(b, 109); lemma_two_pow_monotonic(106, (b - 1) as nat);
    } else if b <= 112 {
        lemma_two_pow_monotonic(b, 112); lemma_two_pow_monotonic(109, (b - 1) as nat);
    } else if b <= 116 {
        lemma_two_pow_monotonic(b, 116); lemma_two_pow_monotonic(112, (b - 1) as nat);
    } else if b <= 119 {
        lemma_two_pow_monotonic(b, 119); lemma_two_pow_monotonic(116, (b - 1) as nat);
    } else if b <= 122 {
        lemma_two_pow_monotonic(b, 122); lemma_two_pow_monotonic(119, (b - 1) as nat);
    } else if b <= 126 {
        lemma_two_pow_monotonic(b, 126); lemma_two_pow_monotonic(122, (b - 1) as nat);
    } else {
        lemma_two_pow_monotonic(b, 128); lemma_two_pow_monotonic(126, (b - 1) as nat);
    }
}

/// Calls `u128::leading_zeros`, which counts the zero bits above the
/// highest set bit of `x` in its 128-bit representation (128 for zero).
/// The contract states that count as 128 minus the bit length of `x`;
/// nothing about it is proved here.
#[verifier::external_body]
pub fn u128_leading_zeros(x: u128) -> (r: u32)
    ensures
        r as int == 128 - bit_len(x as nat),
{
    x.leading_zeros()
}

} // verus!
