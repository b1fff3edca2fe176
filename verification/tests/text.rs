use tokio_chat::text::{chars_of, parse_u64, parse_usize, push_decimal, trimmed};

fn chars(s: &str) -> Vec<char> {
    chars_of(s)
}

#[test]
fn trims_ascii_and_unicode_space() {
    assert_eq!(trimmed("  alice \r\n"), "alice");
    assert_eq!(trimmed("\u{3000}bob\u{a0}"), "bob");
    assert_eq!(trimmed(" \t\n "), "");
    assert_eq!(trimmed("a b"), "a b");
}

#[test]
fn parses_unsigned_like_std() {
    assert_eq!(parse_u64(&chars("0")), Some(0));
    assert_eq!(parse_u64(&chars("+42")), Some(42));
    assert_eq!(parse_u64(&chars("007")), Some(7));
    assert_eq!(parse_u64(&chars("18446744073709551615")), Some(u64::MAX));
    assert_eq!(parse_u64(&chars("18446744073709551616")), None);
    assert_eq!(parse_u64(&chars("")), None);
    assert_eq!(parse_u64(&chars("+")), None);
    assert_eq!(parse_u64(&chars("-1")), None);
    assert_eq!(parse_u64(&chars("1 ")), None);
    assert_eq!(parse_u64(&chars("++1")), None);
    for s in ["0", "+9", "123", "-3", "", "12a", "99999999999999999999"] {
        assert_eq!(parse_u64(&chars(s)), s.parse::<u64>().ok(), "input {:?}", s);
        assert_eq!(parse_usize(&chars(s)), s.parse::<usize>().ok(), "input {:?}", s);
    }
}

#[test]
fn writes_decimal_like_std() {
    for n in [0u64, 7, 10, 99, 100, 1234567890, u64::MAX] {
        let mut v = vec!['x'];
        push_decimal(n, &mut v);
        let s: String = v.iter().collect();
        assert_eq!(s, format!("x{}", n));
    }
}

#[test]
fn decimal_round_trip_holds() {
    for n in [0u64, 5, 42, 1_000_000, u64::MAX] {
        let mut v = Vec::new();
        push_decimal(n, &mut v);
        assert_eq!(parse_u64(&v), Some(n));
    }
}
