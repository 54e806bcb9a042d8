use waywall::text::{
    chars_of, contains_char, contains_name, join, list_text, parse_u32, parse_u64, push_decimal, push_signed,
    same, split, starts_with, trim,
};

#[test]
fn characters_are_compared_not_bytes() {
    assert_eq!(chars_of("a\u{e9}\u{1f600}").len(), 3);
    assert!(same("caf\u{e9}", "caf\u{e9}"));
    assert!(!same("cafe", "caf\u{e9}"));
    assert!(starts_with("renderD128", "renderD"));
    assert!(!starts_with("render", "renderD"));
    assert!(contains_char("a:b", ':'));
    assert!(!contains_char("ab", ':'));
}

#[test]
fn pieces_of_a_list() {
    assert_eq!(split("a,b,,c", ','), vec!["a", "b", "", "c"]);
    assert_eq!(split("", ','), vec![""]);
    assert_eq!(trim(" \t a b \n"), "a b");
    assert_eq!(trim("\u{2003}"), "");
    assert!(contains_name(&vec!["x".to_string(), "y".to_string()], "y"));
    assert_eq!(join("/dev/dri/", "card0"), "/dev/dri/card0");
}

#[test]
fn decimal_numbers_read_back() {
    for n in [0u64, 9, 10, 1234567890, u64::MAX] {
        let mut s = String::new();
        push_decimal(&mut s, n);
        assert_eq!(s, n.to_string());
        assert_eq!(parse_u64(&s), Some(n));
    }
    let mut s = String::from("x");
    push_signed(&mut s, i32::MIN);
    assert_eq!(s, "x-2147483648");
    assert_eq!(parse_u32("+42"), Some(42));
    assert_eq!(parse_u32("4294967296"), None);
    assert_eq!(parse_u64(""), None);
    assert_eq!(parse_u64("+"), None);
    assert_eq!(parse_u64("1a"), None);
    assert_eq!(parse_u64("-1"), None);
}

#[test]
fn lists_in_brackets() {
    let list = |items: &[&str]| list_text(&items.iter().map(|s| s.to_string()).collect());
    assert_eq!(list(&[]), "[]");
    assert_eq!(list(&["1"]), "[1]");
    assert_eq!(list(&["1", "", "3"]), "[1, , 3]");
}
