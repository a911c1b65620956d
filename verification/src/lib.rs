pub mod bits;
pub mod decimal;
pub mod dump;
pub mod integer;
pub mod wide;

pub use integer::{Integer, Unsigned};
pub use wide::{div_rem_1e16, u128_mulhi};

use crate::decimal::{
    decimal_digits, decimal_text, digit_count, lemma_decimal_digits_well_formed,
    lemma_decimal_text_value, text_value,
};
use vstd::prelude::*;

verus! {

/// Whether `c` is a character of a decimal text: a digit or a minus sign.
pub open spec fn is_text_char(c: char) -> bool {
    c == '-' || ('0' <= c && c <= '9')
}

/// Appends the character `c`, a digit or a minus sign, to the end of `s`:
/// every character already in `s` stays where it was and `c` comes last.
fn push_char(s: &mut String, c: char)
    requires
        is_text_char(c),
    ensures
        final(s)@ == old(s)@.push(c),
{
    let piece: &str = match c {
        '0' => {
            proof {
                reveal_strlit("0");
            }
            "0"
        },
        '1' => {
            proof {
                reveal_strlit("1");
            }
            "1"
        },
        '2' => {
            proof {
                reveal_strlit("2");
            }
            "2"
        },
        '3' => {
            proof {
                reveal_strlit("3");
            }
            "3"
        },
        '4' => {
            proof {
                reveal_strlit("4");
            }
            "4"
        },
        '5' => {
            proof {
                reveal_strlit("5");
            }
            "5"
        },
        '6' => {
            proof {
                reveal_strlit("6");
            }
            "6"
        },
        '7' => {
            proof {
                reveal_strlit("7");
            }
            "7"
        },
        '8' => {
            proof {
                reveal_strlit("8");
            }
            "8"
        },
        '-' => {
            proof {
                reveal_strlit("-");
            }
            "-"
        },
        _ => {
            proof {
                reveal_strlit("9");
            }
            "9"
        },
    };
    assert(piece@ =~= seq![c]);
    s.append(piece);
    assert(s@ =~= old(s)@.push(c));
}

/// Writes the sign (`neg` is 1 for a minus sign, 0 for none) and then the
/// digits of `abs` into `buf`, which must be exactly as long as that text.
fn put_text<U: Unsigned>(neg: usize, abs: U, buf: &mut [u8])
    requires
        neg <= 1,
        old(buf)@.len() == neg + digit_count(abs.nat_value()),
    ensures
        final(buf)@ == if neg == 1 {
            seq![45u8] + decimal_digits(abs.nat_value())
        } else {
            decimal_digits(abs.nat_value())
        },
{
    if neg != 0 {
        buf[0] = 45u8;
    }
    let ghost sign = buf@.subrange(0, neg as int);
    let (_, digits) = buf.split_at_mut(neg);
    abs.unchecked_dump(digits);
    proof {
        if neg == 1 {
            assert(sign =~= seq![45u8]);
        } else {
            assert(sign =~= Seq::<u8>::empty());
        }
        assert(buf@ =~= sign + decimal_digits(abs.nat_value()));
    }
}

/// Write the integer to the slice in decimal format.
///
/// Return `Ok` if the slice is long enough, containing the length
/// of formatted string. Return `Err` otherwise, containing the
/// needed length too.
pub fn write_to_slice(n: impl Integer, buf: &mut [u8]) -> (r: Result<usize, usize>)
    ensures
        old(buf)@.len() >= decimal_text(n.int_value()).len() ==> {
            &&& r == Ok::<usize, usize>(decimal_text(n.int_value()).len() as usize)
            &&& final(buf)@ == decimal_text(n.int_value()) + old(buf)@.subrange(
                decimal_text(n.int_value()).len() as int,
                old(buf)@.len() as int,
            )
        },
        old(buf)@.len() < decimal_text(n.int_value()).len() ==> {
            &&& r == Err::<usize, usize>(decimal_text(n.int_value()).len() as usize)
            &&& final(buf)@ == old(buf)@
        },
{
    let (neg, abs) = n.unsigned_abs();
    let len = neg + abs.dump_len();
    if buf.len() < len {
        return Err(len);
    }
    let ghost rest = buf@.subrange(len as int, buf@.len() as int);
    let (head, _) = buf.split_at_mut(len);
    put_text(neg, abs, head);
    proof {
        assert(buf@ =~= decimal_text(n.int_value()) + rest);
    }
    Ok(len)
}

/// Write the integer to the slice in decimal format, without checking
/// the length of slice.
///
/// Return the length of formatted string. The slice must be long enough
/// for the text.
pub fn unchecked_write_to_slice(n: impl Integer, buf: &mut [u8]) -> (r: usize)
    requires
        old(buf)@.len() >= decimal_text(n.int_value()).len(),
    ensures
        r == decimal_text(n.int_value()).len(),
        final(buf)@ == decimal_text(n.int_value()) + old(buf)@.subrange(r as int, old(buf)@.len() as int),
{
    let (neg, abs) = n.unsigned_abs();
    let len = neg + abs.dump_len();
    let ghost rest = buf@.subrange(len as int, buf@.len() as int);
    let (head, _) = buf.split_at_mut(len);
    put_text(neg, abs, head);
    proof {
        assert(buf@ =~= decimal_text(n.int_value()) + rest);
    }
    len
}

/// The characters of a text of ASCII bytes.
pub open spec fn ascii_chars(text: Seq<u8>) -> Seq<char> {
    text.map_values(|b: u8| b as char)
}

/// Every byte of a decimal text is a digit or a minus sign.
pub proof fn lemma_decimal_text_chars(v: int)
    ensures
        forall|j: int|
            0 <= j < decimal_text(v).len() ==> is_text_char(#[trigger] decimal_text(v)[j] as char),
{
    let digits = decimal_digits(if v < 0 {
        (-v) as nat
    } else {
        v as nat
    });
    lemma_decimal_digits_well_formed(if v < 0 {
        (-v) as nat
    } else {
        v as nat
    });
    assert forall|j: int| 0 <= j < decimal_text(v).len() implies is_text_char(
        #[trigger] decimal_text(v)[j] as char,
    ) by {
        if v < 0 {
            if j > 0 {
                assert(decimal_text(v)[j] == digits[j - 1]);
            }
        } else {
            assert(decimal_text(v)[j] == digits[j]);
        }
    }
}

/// The text appended to a string is, character for character, the text
/// written to a slice: each character is the corresponding ASCII byte.
pub proof fn lemma_string_text_matches_slice_text(v: int)
    ensures
        ascii_chars(decimal_text(v)).len() == decimal_text(v).len(),
        forall|i: int|
            0 <= i < decimal_text(v).len() ==> #[trigger] ascii_chars(decimal_text(v))[i]
                == decimal_text(v)[i] as char,
{
}

/// What appending the text of `v` to a string does, for any text already
/// in the string (whatever its characters): the old characters stay in
/// place, then come as many new characters as the text has bytes, each the
/// character of its byte, and those new characters read back as `v`.
pub proof fn lemma_append_keeps_old_text(before: Seq<char>, after: Seq<char>, v: int)
    requires
        after == before + ascii_chars(decimal_text(v)),
    ensures
        after.len() == before.len() + decimal_text(v).len(),
        after.subrange(0, before.len() as int) == before,
        forall|i: int|
            0 <= i < decimal_text(v).len() ==> #[trigger] after[before.len() + i] as u8
                == decimal_text(v)[i],
        text_value(after.subrange(before.len() as int, after.len() as int).map_values(
            |c: char| c as u8,
        )) == v,
{
    let text = decimal_text(v);
    let added = after.subrange(before.len() as int, after.len() as int);
    assert(after.subrange(0, before.len() as int) =~= before);
    assert forall|i: int| 0 <= i < text.len() implies #[trigger] after[before.len() + i] as u8
        == text[i] by {
        assert(after[before.len() + i] == text[i] as char);
    }
    assert(added.map_values(|c: char| c as u8) =~= text) by {
        assert forall|i: int| 0 <= i < text.len() implies added.map_values(|c: char| c as u8)[i]
            == text[i] by {
            assert(added[i] == after[before.len() + i]);
        }
    }
    lemma_decimal_text_value(v);
}

/// Appends the sign and digits of `n` to `s`.
fn append_text(n: impl Integer, s: &mut String)
    ensures
        final(s)@ == old(s)@ + ascii_chars(decimal_text(n.int_value())),
{
    let (neg, abs) = n.unsigned_abs();
    let dump_len = neg + abs.dump_len();
    let mut v: Vec<u8> = vec![0u8; dump_len];
    put_text(neg, abs, v.as_mut_slice());
    let ghost text = decimal_text(n.int_value());
    assert(v@ =~= text);
    proof {
        lemma_decimal_text_chars(n.int_value());
    }
    let mut i: usize = 0;
    while i < dump_len
        invariant
            v@ == text,
            dump_len == text.len(),
            i <= dump_len,
            s@ == old(s)@ + ascii_chars(text.subrange(0, i as int)),
            forall|j: int| 0 <= j < text.len() ==> is_text_char(#[trigger] text[j] as char),
        decreases dump_len - i,
    {
        push_char(s, v[i] as char);
        i += 1;
        assert(ascii_chars(text.subrange(0, i as int)) =~= ascii_chars(
            text.subrange(0, (i - 1) as int),
        ).push(v[i - 1] as char));
    }
    assert(text.subrange(0, i as int) =~= text);
}

/// Append the integer to the string in decimal format.
pub fn write_to_string(n: impl Integer, s: &mut String)
    ensures
        final(s)@ == old(s)@ + ascii_chars(decimal_text(n.int_value())),
{
    append_text(n, s)
}

/// Append the integer to the string in decimal format. The text is
/// written the same way as by [`write_to_string`]; the capacity of the
/// string need not be reserved beforehand.
pub fn unchecked_write_to_string(n: impl Integer, s: &mut String)
    ensures
        final(s)@ == old(s)@ + ascii_chars(decimal_text(n.int_value())),
{
    append_text(n, s)
}

} // verus!
