use itoaaa::{write_to_slice, Integer};
use std::fmt::{Debug, Display};

fn test<T>(n: T)
where
    T: Integer + Copy + Display + Debug,
{
    let mut buf: [u8; 40] = [0; 40];
    let pos = write_to_slice(n, &mut buf).unwrap();
    assert_eq!(std::str::from_utf8(&buf[..pos]).unwrap(), format!("{n}"));
}

#[test]
fn it_works() {
    test(0);
    test(i64::MIN);
    test(i64::MAX);
    test(-i64::MAX);
    test(i128::MIN);
    test(i128::MAX);
    test(-i128::MAX);

    let mut n = u8::MAX;
    while n != 0 {
        test(n);
        if let Ok(i) = i8::try_from(n) {
            test(i);
            test(-i);
        }
        n /= 10;
    }

    let mut n = u64::MAX;
    while n != 0 {
        test(n);
        if let Ok(i) = i64::try_from(n) {
            test(i);
            test(-i);
        }
        n /= 10;
    }

    let mut n = u128::MAX;
    while n != 0 {
        test(n);
        if let Ok(i) = i128::try_from(n) {
            test(i);
            test(-i);
        }
        n /= 10;
    }
}
