use datacenter::num::{parse_decimal, push_num, Num};

fn bytes(s: &str) -> Vec<u8> {
    s.as_bytes().to_vec()
}

fn parse(s: &str) -> Option<Num> {
    parse_decimal(&bytes(s))
}

fn render(n: &Num) -> String {
    let mut out: Vec<u8> = Vec::new();
    push_num(&mut out, n);
    String::from_utf8(out).unwrap()
}

#[test]
fn parses_integer() {
    let n = parse("42").unwrap();
    assert!(!n.neg);
    assert_eq!(n.int_part, 42);
    assert_eq!(n.frac, Vec::<u8>::new());
}

#[test]
fn parses_fraction() {
    let n = parse("21.5").unwrap();
    assert!(!n.neg);
    assert_eq!(n.int_part, 21);
    assert_eq!(n.frac, b"5".to_vec());
}

#[test]
fn normalizes_trailing_zeros() {
    let a = parse("21.5").unwrap();
    let b = parse("21.50").unwrap();
    assert!(a.eq_num(&b));
    let c = parse("40.0").unwrap();
    assert_eq!(c.int_part, 40);
    assert_eq!(c.frac, Vec::<u8>::new());
}

#[test]
fn integer_equals_point_zero() {
    let a = parse("40").unwrap();
    let b = parse("40.0").unwrap();
    assert!(a.eq_num(&b));
}

#[test]
fn normalizes_negative_zero() {
    let n = parse("-0").unwrap();
    assert!(!n.neg);
    assert_eq!(n.int_part, 0);
    let m = parse("-0.00").unwrap();
    assert!(!m.neg);
}

#[test]
fn keeps_negative_sign() {
    let n = parse("-3.25").unwrap();
    assert!(n.neg);
    assert_eq!(n.int_part, 3);
    assert_eq!(n.frac, b"25".to_vec());
}

#[test]
fn rejects_bad_texts() {
    assert!(parse("").is_none());
    assert!(parse("-").is_none());
    assert!(parse("abc").is_none());
    assert!(parse("12.").is_none());
    assert!(parse(".5").is_none());
    assert!(parse("12.3.4").is_none());
    assert!(parse("1e3").is_none());
    assert!(parse("1 2").is_none());
}

#[test]
fn rejects_oversized_integer_part() {
    assert!(parse("99999999999999999999").is_none());
    assert!(parse("18446744073709551615").is_some());
    assert!(parse("18446744073709551616").is_none());
}

#[test]
fn renders_normal_form() {
    assert_eq!(render(&parse("21.5").unwrap()), "21.5");
    assert_eq!(render(&parse("40.0").unwrap()), "40");
    assert_eq!(render(&parse("-3.25").unwrap()), "-3.25");
    assert_eq!(render(&parse("0.12").unwrap()), "0.12");
    assert_eq!(render(&parse("007").unwrap()), "7");
}
