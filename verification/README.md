# itoaaa

Prints primitive integers in decimal, into a byte slice or onto the end of
a `String`, with every function verified by Verus.

- `src/decimal.rs`: what the decimal text of a number is (`decimal_digits`,
  `decimal_text`) and the facts about it: it consists of ASCII digits without
  leading zeros, reads back as the number, is the only such text, and its
  length bounds the number between powers of ten.
- `src/bits.rs`: bit lengths, and how the bit length of a number bounds its
  digit count (the estimate `(b * 1233) >> 12`).
- `src/wide.rs`: the high half of a 128-bit product and the division of a
  `u128` by 10^16 through a precomputed reciprocal.
- `src/dump.rs`: counting and writing the digits of `u64` and `u128` values,
  two digits at a time from a lookup table.
- `src/integer.rs`: the `Integer` and `Unsigned` traits and their impls for
  the primitive integers.
- `src/lib.rs`: `write_to_slice`, `unchecked_write_to_slice`,
  `write_to_string` and `unchecked_write_to_string`.

The "unchecked" functions are ordinary safe functions here: the length that
the caller must provide is a `requires` clause that Verus checks at each call.
