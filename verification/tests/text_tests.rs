use blockchain::digest::hash_text;
use blockchain::text::{push_decimal, push_json_string, starts_with_zeros, to_hex};

#[test]
fn decimal_numerals() {
    let cases: [(u128, &str); 7] = [
        (0, "0"),
        (7, "7"),
        (10, "10"),
        (1_000_000, "1000000"),
        (13_990_000_000, "13990000000"),
        (u64::MAX as u128, "18446744073709551615"),
        (u128::MAX, "340282366920938463463374607431768211455"),
    ];
    for (number, text) in cases {
        let mut out = String::from("n=");
        push_decimal(&mut out, number);
        assert_eq!(out, format!("n={}", text));
    }
}

#[test]
fn hexadecimal_text() {
    assert_eq!(to_hex(&[]), "");
    assert_eq!(to_hex(&[0x00, 0x0f, 0xa0, 0xff, 0x5b]), "000fa0ff5b");
}

#[test]
fn json_string_literals() {
    let mut out = String::from("[");
    push_json_string(&mut out, "plain");
    push_json_string(&mut out, "a\"b\\c\n");
    assert_eq!(out, "[\"plain\"\"a\\\"b\\\\c\\n\"");
}

#[test]
fn leading_zeros() {
    assert!(starts_with_zeros("0000ab", 4));
    assert!(starts_with_zeros("0000ab", 0));
    assert!(starts_with_zeros("0000ab", 3));
    assert!(!starts_with_zeros("0000ab", 5));
    assert!(!starts_with_zeros("000", 4));
    assert!(!starts_with_zeros("a000", 1));
    assert!(starts_with_zeros("", 0));
    assert!(!starts_with_zeros("", 1));
    assert!(!starts_with_zeros("00", 255));
}

#[test]
fn sha256_of_known_texts() {
    assert_eq!(
        hash_text(""),
        "e3b0c44298fc1c149afbf4c8996fb92427ae41e4649b934ca495991b7852b855"
    );
    assert_eq!(
        hash_text("abc"),
        "ba7816bf8f01cfea414140de5dae2223b00361a396177a9cb410ff61f20015ad"
    );
}
