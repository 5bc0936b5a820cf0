use webauth::uid::{format_uid, parse_uid};

#[test]
fn uid_string_round_trip() {
    let u: u128 = 0x0123456789abcdef0123456789abcdef;
    let s = format_uid(u);
    assert_eq!("0123456789abcdef0123456789abcdef", s.as_str());
    assert_eq!(Some(u), parse_uid(s.as_str()));

    let zero = format_uid(0);
    assert_eq!("00000000000000000000000000000000", zero.as_str());
    assert_eq!(Some(0), parse_uid(zero.as_str()));

    let max = format_uid(u128::MAX);
    assert_eq!("ffffffffffffffffffffffffffffffff", max.as_str());
    assert_eq!(Some(u128::MAX), parse_uid(max.as_str()));
}

#[test]
fn parse_accepts_upper_case_digits() {
    assert_eq!(
        parse_uid("0123456789abcdef0123456789abcdef"),
        parse_uid("0123456789ABCDEF0123456789ABCDEF")
    );
}

#[test]
fn parse_rejects_anything_else() {
    assert_eq!(None, parse_uid(""));
    assert_eq!(None, parse_uid("xyz"));
    // 31 and 33 digits
    assert_eq!(None, parse_uid("0123456789abcdef0123456789abcde"));
    assert_eq!(None, parse_uid("0123456789abcdef0123456789abcdef0"));
    // right length, one bad character
    assert_eq!(None, parse_uid("0123456789abcdef0123456789abcdeg"));
    // hyphenated form is not the cookie form
    assert_eq!(None, parse_uid("01234567-89ab-cdef-0123-456789abcdef"));
}
