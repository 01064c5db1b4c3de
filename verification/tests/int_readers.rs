use quick_input::ints::parse_i128;
use quick_input::ints::parse_i16;
use quick_input::ints::parse_i32;
use quick_input::ints::parse_i64;
use quick_input::ints::parse_i8;
use quick_input::ints::parse_isize;
use quick_input::ints::parse_u128;
use quick_input::ints::parse_u16;
use quick_input::ints::parse_u32;
use quick_input::ints::parse_u64;
use quick_input::ints::parse_u8;
use quick_input::ints::parse_usize;

#[test]
fn u8_accepts_full_range() {
    assert_eq!(parse_u8("0"), Some(0));
    assert_eq!(parse_u8("255"), Some(255));
    assert_eq!(parse_u8("42"), Some(42));
}

#[test]
fn u8_enforces_range() {
    assert_eq!(parse_u8("256"), None);
    assert_eq!(parse_u8("-1"), None);
    assert_eq!(parse_u8("1000"), None);
}

#[test]
fn u8_rejects_malformed() {
    assert_eq!(parse_u8(""), None);
    assert_eq!(parse_u8("   "), None);
    assert_eq!(parse_u8("+"), None);
    assert_eq!(parse_u8("4 2"), None);
    assert_eq!(parse_u8("12a"), None);
    assert_eq!(parse_u8("0x10"), None);
}

#[test]
fn u8_trims_and_takes_plus_sign() {
    assert_eq!(parse_u8("  37\n"), Some(37));
    assert_eq!(parse_u8("+37"), Some(37));
    assert_eq!(parse_u8("+0"), Some(0));
}

#[test]
fn u8_leading_zeros_count_by_value() {
    assert_eq!(parse_u8("007"), Some(7));
    assert_eq!(parse_u8("0255"), Some(255));
    assert_eq!(parse_u8("0256"), None);
}

#[test]
fn i8_boundaries() {
    assert_eq!(parse_i8("127"), Some(127));
    assert_eq!(parse_i8("128"), None);
    assert_eq!(parse_i8("-128"), Some(-128));
    assert_eq!(parse_i8("-129"), None);
    assert_eq!(parse_i8("-0"), Some(0));
}

#[test]
fn i16_and_u16_boundaries() {
    assert_eq!(parse_i16("32767"), Some(32767));
    assert_eq!(parse_i16("32768"), None);
    assert_eq!(parse_i16("-32768"), Some(-32768));
    assert_eq!(parse_u16("65535"), Some(65535));
    assert_eq!(parse_u16("65536"), None);
}

#[test]
fn i32_and_u32_boundaries() {
    assert_eq!(parse_i32("2147483647"), Some(i32::MAX));
    assert_eq!(parse_i32("2147483648"), None);
    assert_eq!(parse_i32("-2147483648"), Some(i32::MIN));
    assert_eq!(parse_i32("-2147483649"), None);
    assert_eq!(parse_u32("4294967295"), Some(u32::MAX));
    assert_eq!(parse_u32("4294967296"), None);
    assert_eq!(parse_u32("-5"), None);
}

#[test]
fn i64_and_u64_boundaries() {
    assert_eq!(parse_i64("9223372036854775807"), Some(i64::MAX));
    assert_eq!(parse_i64("-9223372036854775808"), Some(i64::MIN));
    assert_eq!(parse_i64("9223372036854775808"), None);
    assert_eq!(parse_u64("18446744073709551615"), Some(u64::MAX));
    assert_eq!(parse_u64("18446744073709551616"), None);
}

#[test]
fn i128_and_u128_boundaries() {
    assert_eq!(
        parse_i128("170141183460469231731687303715884105727"),
        Some(i128::MAX)
    );
    assert_eq!(parse_i128("170141183460469231731687303715884105728"), None);
    assert_eq!(
        parse_i128("-170141183460469231731687303715884105728"),
        Some(i128::MIN)
    );
    assert_eq!(parse_i128("-170141183460469231731687303715884105729"), None);
    assert_eq!(
        parse_u128("340282366920938463463374607431768211455"),
        Some(u128::MAX)
    );
    assert_eq!(parse_u128("340282366920938463463374607431768211456"), None);
    // far past any width: the scanner must still answer, not overflow
    assert_eq!(parse_u128("99999999999999999999999999999999999999999999"), None);
}

#[test]
fn isize_and_usize_follow_the_platform_width() {
    assert_eq!(parse_isize("-40"), Some(-40));
    assert_eq!(parse_usize("40"), Some(40));
    assert_eq!(parse_usize(&usize::MAX.to_string()), Some(usize::MAX));
    assert_eq!(parse_isize(&isize::MIN.to_string()), Some(isize::MIN));
    assert_eq!(parse_usize("-1"), None);
}
