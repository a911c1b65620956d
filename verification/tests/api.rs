use itoaaa::{
    div_rem_1e16, u128_mulhi, unchecked_write_to_slice, unchecked_write_to_string,
    write_to_slice, write_to_string, Integer, Unsigned,
};
use std::fmt::Display;

fn text_of<T: Integer + Copy + Display>(n: T) -> String {
    let mut buf: [u8; 40] = [0; 40];
    let len = write_to_slice(n, &mut buf).unwrap();
    String::from_utf8(buf[..len].to_vec()).unwrap()
}

#[test]
fn readme_slice_example() {
    let mut buf: [u8; 10] = [0; 10];
    let len = write_to_slice(1234, &mut buf).unwrap();
    assert_eq!(std::str::from_utf8(&buf[..len]).unwrap(), "1234");
}

#[test]
fn readme_string_example() {
    let mut s = String::new();
    write_to_string(1234, &mut s);
    assert_eq!(s, "1234");
}

#[test]
fn doc_slice_example_large_buffer() {
    let mut buf: [u8; 100] = [0; 100];
    let len = write_to_slice(1234, &mut buf).unwrap();
    assert_eq!(std::str::from_utf8(&buf[..len]).unwrap(), "1234");
}

#[test]
fn slice_too_short_reports_needed_length() {
    let mut buf: [u8; 3] = [7; 3];
    assert_eq!(write_to_slice(1234u32, &mut buf), Err(4));
    assert_eq!(buf, [7, 7, 7]);
    let mut buf: [u8; 4] = [7; 4];
    assert_eq!(write_to_slice(-1234i16, &mut buf), Err(5));
    assert_eq!(buf, [7, 7, 7, 7]);
    let mut empty: [u8; 0] = [];
    assert_eq!(write_to_slice(0u8, &mut empty), Err(1));
}

#[test]
fn slice_exact_length_succeeds() {
    let mut buf: [u8; 5] = [0; 5];
    assert_eq!(write_to_slice(-1234i64, &mut buf), Ok(5));
    assert_eq!(&buf, b"-1234");
}

#[test]
fn slice_keeps_bytes_after_text() {
    let mut buf: [u8; 8] = [b'x'; 8];
    assert_eq!(write_to_slice(-56i8, &mut buf), Ok(3));
    assert_eq!(&buf, b"-56xxxxx");
}

#[test]
fn unchecked_slice_writes_the_same_text() {
    let mut buf: [u8; 6] = [b'x'; 6];
    assert_eq!(unchecked_write_to_slice(9876u16, &mut buf), 4);
    assert_eq!(&buf, b"9876xx");
    let mut buf: [u8; 40] = [0; 40];
    let len = unchecked_write_to_slice(i128::MIN, &mut buf);
    assert_eq!(&buf[..len], b"-170141183460469231731687303715884105728");
}

#[test]
fn string_appends_after_existing_text() {
    let mut s = String::from("n=");
    write_to_string(-42i32, &mut s);
    write_to_string(7u8, &mut s);
    assert_eq!(s, "n=-427");
}

#[test]
fn unchecked_string_appends() {
    let mut s = String::with_capacity(64);
    s.push_str("abc");
    unchecked_write_to_string(u64::MAX, &mut s);
    assert_eq!(s, "abc18446744073709551615");
}

#[test]
fn zero_in_every_type() {
    assert_eq!(text_of(0u8), "0");
    assert_eq!(text_of(0i8), "0");
    assert_eq!(text_of(0u16), "0");
    assert_eq!(text_of(0i16), "0");
    assert_eq!(text_of(0u32), "0");
    assert_eq!(text_of(0i32), "0");
    assert_eq!(text_of(0u64), "0");
    assert_eq!(text_of(0i64), "0");
    assert_eq!(text_of(0u128), "0");
    assert_eq!(text_of(0i128), "0");
    let mut s = String::new();
    write_to_string(0u8, &mut s);
    assert_eq!(s, "0");
}

#[test]
fn extremes_of_every_type() {
    assert_eq!(text_of(u8::MAX), "255");
    assert_eq!(text_of(i8::MIN), "-128");
    assert_eq!(text_of(i8::MAX), "127");
    assert_eq!(text_of(u16::MAX), "65535");
    assert_eq!(text_of(i16::MIN), "-32768");
    assert_eq!(text_of(u32::MAX), "4294967295");
    assert_eq!(text_of(i32::MIN), "-2147483648");
    assert_eq!(text_of(u64::MAX), "18446744073709551615");
    assert_eq!(text_of(i64::MIN), "-9223372036854775808");
    assert_eq!(text_of(u128::MAX), "340282366920938463463374607431768211455");
}

#[test]
fn every_u16_and_i16_matches_display() {
    for n in 0..=u16::MAX {
        assert_eq!(text_of(n), n.to_string());
    }
    for n in i16::MIN..=i16::MAX {
        assert_eq!(text_of(n), n.to_string());
    }
}

#[test]
fn powers_of_ten_and_neighbours() {
    let mut p: u128 = 1;
    loop {
        for n in [p - 1, p, p + 1] {
            assert_eq!(text_of(n), n.to_string());
            if let Ok(m) = u64::try_from(n) {
                assert_eq!(text_of(m), m.to_string());
            }
            if let Ok(m) = u32::try_from(n) {
                assert_eq!(text_of(m), m.to_string());
            }
            if let Ok(m) = i64::try_from(n) {
                assert_eq!(text_of(-m), (-m).to_string());
            }
        }
        match p.checked_mul(10) {
            Some(q) => p = q,
            None => break,
        }
    }
}

#[test]
fn powers_of_two_and_neighbours() {
    for k in 0..128u32 {
        let p: u128 = 1u128 << k;
        for n in [p - 1, p, p.saturating_add(1)] {
            assert_eq!(text_of(n), n.to_string());
        }
    }
    for k in 0..64u32 {
        let p: u64 = 1u64 << k;
        for n in [p - 1, p, p.saturating_add(1)] {
            assert_eq!(text_of(n), n.to_string());
        }
    }
}

#[test]
fn thirty_digit_u128_values() {
    // Numbers of 100 to 102 bits: some have 30 digits, some 31.
    let below = 700_000_000_000_000_000_000_000_000_000u128;
    assert_eq!(Unsigned::dump_len(below), 30);
    assert_eq!(text_of(below), "700000000000000000000000000000");
    let at = 1_000_000_000_000_000_000_000_000_000_000u128;
    assert_eq!(Unsigned::dump_len(at), 31);
    assert_eq!(text_of(at), at.to_string());
    assert_eq!(text_of(at - 1), (at - 1).to_string());
}

#[test]
fn dump_len_counts_digits() {
    assert_eq!(Unsigned::dump_len(0u8), 1);
    assert_eq!(Unsigned::dump_len(9u8), 1);
    assert_eq!(Unsigned::dump_len(10u8), 2);
    assert_eq!(Unsigned::dump_len(255u8), 3);
    assert_eq!(Unsigned::dump_len(9999u16), 4);
    assert_eq!(Unsigned::dump_len(10000u16), 5);
    assert_eq!(Unsigned::dump_len(999_999_999u32), 9);
    assert_eq!(Unsigned::dump_len(1_000_000_000u32), 10);
    assert_eq!(Unsigned::dump_len(u64::MAX), 20);
    assert_eq!(Unsigned::dump_len(u128::MAX), 39);
}

#[test]
fn unchecked_dump_writes_digits_only() {
    let mut buf = [0u8; 5];
    Unsigned::unchecked_dump(12345u32, &mut buf);
    assert_eq!(&buf, b"12345");
    let mut buf = [0u8; 1];
    Unsigned::unchecked_dump(0u128, &mut buf);
    assert_eq!(&buf, b"0");
    let mut buf = [0u8; 39];
    Unsigned::unchecked_dump(u128::MAX, &mut buf);
    assert_eq!(&buf[..], b"340282366920938463463374607431768211455");
}

#[test]
fn unsigned_abs_splits_sign_and_magnitude() {
    assert_eq!(Integer::unsigned_abs(i8::MIN), (1, 128u8));
    assert_eq!(Integer::unsigned_abs(-1i32), (1, 1u32));
    assert_eq!(Integer::unsigned_abs(5i64), (0, 5u64));
    assert_eq!(Integer::unsigned_abs(i128::MIN), (1, 1u128 << 127));
    assert_eq!(Integer::unsigned_abs(200u8), (0, 200u8));
}

#[test]
fn div_rem_1e16_values() {
    assert_eq!(div_rem_1e16(0), (0, 0));
    assert_eq!(div_rem_1e16(9_999_999_999_999_999), (0, 9_999_999_999_999_999));
    assert_eq!(div_rem_1e16(10_000_000_000_000_000), (1, 0));
    assert_eq!(
        div_rem_1e16(u128::MAX),
        (34028236692093846346337, 4607431768211455)
    );
    let d: u128 = 10_000_000_000_000_000;
    let mut n: u128 = u128::MAX;
    while n != 0 {
        for m in [n, n - 1, n / d * d, (n / d * d).wrapping_sub(1)] {
            assert_eq!(div_rem_1e16(m), (m / d, (m % d) as u64));
        }
        n /= 3;
    }
}

#[test]
fn u128_mulhi_values() {
    assert_eq!(u128_mulhi(u128::MAX, u128::MAX), u128::MAX - 1);
    assert_eq!(u128_mulhi(1u128 << 64, 1u128 << 64), 1);
    assert_eq!(u128_mulhi(u128::MAX, 1), 0);
    assert_eq!(u128_mulhi(u128::MAX, 2), 1);
    assert_eq!(u128_mulhi(1u128 << 127, 6), 3);
    assert_eq!(u128_mulhi(0, u128::MAX), 0);
}

#[test]
fn text_reads_back_as_the_number() {
    let samples: [i128; 8] = [0, 1, -1, 42, -907, i128::MAX, i128::MIN, 123_456_789_012_345_678_901];
    for n in samples {
        let text = text_of(n);
        assert_eq!(text.parse::<i128>().unwrap(), n);
        let digits = text.trim_start_matches('-');
        assert!(digits.bytes().all(|b| b.is_ascii_digit()));
        assert!(!digits.starts_with('0') || digits == "0");
    }
}

#[test]
fn string_text_equals_slice_text() {
    for n in [0i64, 5, -5, 1_000_000, i64::MIN, i64::MAX] {
        let mut s = String::new();
        write_to_string(n, &mut s);
        assert_eq!(s, text_of(n));
    }
}
