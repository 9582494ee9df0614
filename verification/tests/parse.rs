use image_editor::parse::{parse_i32, parse_u32, parse_u8};

const SAMPLES: [&str; 46] = [
    "",
    "0",
    "7",
    "+7",
    "-7",
    "+",
    "-",
    "+0",
    "-0",
    "007",
    "0000000000000000000000000000000005",
    "255",
    "256",
    "+255",
    "+256",
    "-255",
    "-256",
    "4294967295",
    "4294967296",
    "+4294967295",
    "2147483647",
    "2147483648",
    "-2147483648",
    "-2147483649",
    "99999999999999999999999999",
    "-99999999999999999999999999",
    "18446744073709551616",
    " 1",
    "1 ",
    "1_000",
    "1.0",
    "1e3",
    "0x10",
    "+-1",
    "-+1",
    "--1",
    "++1",
    "1-",
    "12a",
    "a12",
    "\u{0663}",
    "\u{ff11}",
    "1\u{00e9}",
    "-\u{00e9}1",
    "\u{2212}1",
    "90",
];

#[test]
fn parse_u8_agrees_with_std() {
    for s in SAMPLES {
        assert_eq!(parse_u8(s), s.parse::<u8>().ok(), "text {:?}", s);
    }
}

#[test]
fn parse_u32_agrees_with_std() {
    for s in SAMPLES {
        assert_eq!(parse_u32(s), s.parse::<u32>().ok(), "text {:?}", s);
    }
}

#[test]
fn parse_i32_agrees_with_std() {
    for s in SAMPLES {
        assert_eq!(parse_i32(s), s.parse::<i32>().ok(), "text {:?}", s);
    }
}

#[test]
fn parse_u8_exact_values() {
    assert_eq!(parse_u8("0"), Some(0));
    assert_eq!(parse_u8("+9"), Some(9));
    assert_eq!(parse_u8("010"), Some(10));
    assert_eq!(parse_u8("255"), Some(255));
    assert_eq!(parse_u8("256"), None);
    assert_eq!(parse_u8("-1"), None);
    assert_eq!(parse_u8("-0"), None);
    assert_eq!(parse_u8(""), None);
}

#[test]
fn parse_u32_exact_values() {
    assert_eq!(parse_u32("0"), Some(0));
    assert_eq!(parse_u32("270"), Some(270));
    assert_eq!(parse_u32("+42"), Some(42));
    assert_eq!(parse_u32("4294967295"), Some(u32::MAX));
    assert_eq!(parse_u32("4294967296"), None);
    assert_eq!(parse_u32("-5"), None);
    assert_eq!(parse_u32("5 "), None);
    assert_eq!(parse_u32("+"), None);
}

#[test]
fn parse_i32_exact_values() {
    assert_eq!(parse_i32("0"), Some(0));
    assert_eq!(parse_i32("-0"), Some(0));
    assert_eq!(parse_i32("-40"), Some(-40));
    assert_eq!(parse_i32("+40"), Some(40));
    assert_eq!(parse_i32("2147483647"), Some(i32::MAX));
    assert_eq!(parse_i32("2147483648"), None);
    assert_eq!(parse_i32("-2147483648"), Some(i32::MIN));
    assert_eq!(parse_i32("-2147483649"), None);
    assert_eq!(parse_i32("-"), None);
    assert_eq!(parse_i32("- 1"), None);
}

#[test]
fn parse_every_u8_round_trips() {
    for v in 0..=255u32 {
        assert_eq!(parse_u8(&format!("{}", v)), Some(v as u8));
        assert_eq!(parse_u32(&format!("{}", v)), Some(v));
        assert_eq!(parse_i32(&format!("-{}", v)), Some(-(v as i32)));
    }
}
