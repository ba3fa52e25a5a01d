use valet::text::{parse_u64, push_decimal, push_hex, str_eq};

fn dec(n: u64) -> String {
    let mut s = String::new();
    push_decimal(&mut s, n);
    s
}

fn hex(n: u64) -> String {
    let mut s = String::new();
    push_hex(&mut s, n);
    s
}

#[test]
fn decimal_matches_display() {
    for n in [0u64, 1, 9, 10, 99, 100, 4096, 1234567890, u64::MAX] {
        assert_eq!(dec(n), format!("{}", n));
    }
}

#[test]
fn hex_matches_lower_hex() {
    for n in [0u64, 9, 10, 15, 16, 255, 0xdead_beef, u64::MAX] {
        assert_eq!(hex(n), format!("{:x}", n));
    }
}

#[test]
fn parse_accepts_what_std_accepts() {
    let cases = [
        "0", "7", "007", "+12", "18446744073709551615", "18446744073709551616", "", "+", "-1",
        "12a", " 12", "12 ", "1_000", "++1", "99999999999999999999",
    ];
    for c in cases {
        assert_eq!(parse_u64(c), c.parse::<u64>().ok(), "input {:?}", c);
    }
}

#[test]
fn str_eq_compares_characters() {
    assert!(str_eq("", ""));
    assert!(str_eq("héllo", "héllo"));
    assert!(!str_eq("abc", "abd"));
    assert!(!str_eq("abc", "ab"));
}
