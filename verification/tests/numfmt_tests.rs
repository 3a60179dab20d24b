use podcheck::numfmt::{bool_to_str, i64_to_dec, u64_to_dec, usize_to_dec};

#[test]
fn unsigned_rendering() {
    assert_eq!(u64_to_dec(0), "0");
    assert_eq!(u64_to_dec(7), "7");
    assert_eq!(u64_to_dec(128), "128");
    assert_eq!(u64_to_dec(1000), "1000");
    assert_eq!(u64_to_dec(u64::MAX), "18446744073709551615");
}

#[test]
fn signed_rendering() {
    assert_eq!(i64_to_dec(0), "0");
    assert_eq!(i64_to_dec(42), "42");
    assert_eq!(i64_to_dec(-1), "-1");
    assert_eq!(i64_to_dec(i64::MAX), "9223372036854775807");
    assert_eq!(i64_to_dec(i64::MIN), "-9223372036854775808");
}

#[test]
fn length_limit_rendering() {
    assert_eq!(usize_to_dec(32), "32");
    assert_eq!(usize_to_dec(128), "128");
}

#[test]
fn boolean_rendering() {
    assert_eq!(bool_to_str(true), "true");
    assert_eq!(bool_to_str(false), "false");
}
