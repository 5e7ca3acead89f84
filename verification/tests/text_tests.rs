use picture_vault::text::{
    chars_of, i64_to_decimal, parse_i32, parse_i64, parse_u64, replace_chars, split_chars, string_of,
    trim_chars, u64_to_decimal,
};

fn s(v: &[char]) -> String {
    string_of(v)
}

#[test]
fn decimal_roundtrips() {
    for n in [0u64, 7, 10, 123456789, u64::MAX] {
        assert_eq!(s(&u64_to_decimal(n)), n.to_string());
        assert_eq!(parse_u64(&u64_to_decimal(n)), Some(n));
    }
    for n in [0i64, -1, 42, i64::MIN, i64::MAX] {
        assert_eq!(s(&i64_to_decimal(n)), n.to_string());
        assert_eq!(parse_i64(&i64_to_decimal(n)), Some(n));
    }
}

#[test]
fn parse_rejects_non_numbers() {
    assert_eq!(parse_u64(&chars_of("")), None);
    assert_eq!(parse_u64(&chars_of("12a")), None);
    assert_eq!(parse_u64(&chars_of("18446744073709551616")), None);
    assert_eq!(parse_i64(&chars_of("-")), None);
    assert_eq!(parse_i32(&chars_of("+5")), Some(5));
    assert_eq!(parse_i32(&chars_of("2147483648")), None);
}

#[test]
fn replace_without_pattern_keeps_text() {
    let r = replace_chars(&chars_of("abc"), &chars_of("xy"), &chars_of("Z"));
    assert_eq!(s(&r), "abc");
    let r = replace_chars(&chars_of("xyaxy"), &chars_of("xy"), &chars_of("Z"));
    assert_eq!(s(&r), "ZaZ");
}

#[test]
fn split_and_trim() {
    let parts: Vec<String> = split_chars(&chars_of("a::b"), ':').iter().map(|p| s(p)).collect();
    assert_eq!(parts, vec!["a".to_string(), "".to_string(), "b".to_string()]);
    assert_eq!(s(&trim_chars(&chars_of("  x y \t"))), "x y");
}
