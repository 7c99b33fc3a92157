use zenv::{Line, Quote};

fn key_val(s: &str) -> (String, String, Quote) {
    match Line::parse(s) {
        Line::KeyVal(kv) => (kv.k, kv.v, kv.q),
        other => panic!("not an assignment: {:?}", other),
    }
}

#[test]
fn blank_and_comment_lines_are_ignored() {
    assert!(matches!(Line::parse(""), Line::Blank));
    assert!(matches!(Line::parse("   \t "), Line::Blank));
    assert!(matches!(Line::parse("# a comment"), Line::Comment));
    assert!(matches!(Line::parse("   #KEY=value"), Line::Comment));
}

#[test]
fn malformed_lines_are_ignored() {
    assert!(matches!(Line::parse("no equals sign"), Line::Malformed));
    assert!(matches!(Line::parse("   =value"), Line::Malformed));
}

#[test]
fn unquoted_value_is_trimmed() {
    assert_eq!(
        key_val("  KEY  =   some value  "),
        ("KEY".to_string(), "some value".to_string(), Quote::Bare)
    );
}

#[test]
fn quotes_are_stripped() {
    assert_eq!(
        key_val("D=\"double\""),
        ("D".to_string(), "double".to_string(), Quote::Double)
    );
    assert_eq!(
        key_val("S= 'single' "),
        ("S".to_string(), "single".to_string(), Quote::Single)
    );
    assert_eq!(
        key_val("Q=\" inner \""),
        ("Q".to_string(), " inner ".to_string(), Quote::Double)
    );
}

#[test]
fn lone_or_mismatched_quotes_stay() {
    assert_eq!(key_val("A=\""), ("A".to_string(), "\"".to_string(), Quote::Bare));
    assert_eq!(key_val("B='x\""), ("B".to_string(), "'x\"".to_string(), Quote::Bare));
    assert_eq!(key_val("C=\"\""), ("C".to_string(), "".to_string(), Quote::Double));
}

#[test]
fn split_at_first_equals() {
    assert_eq!(key_val("URL=a=b"), ("URL".to_string(), "a=b".to_string(), Quote::Bare));
    assert_eq!(key_val("EMPTY="), ("EMPTY".to_string(), "".to_string(), Quote::Bare));
}

#[test]
fn from_str_matches_parse() {
    assert!(matches!(Line::from("# c"), Line::Comment));
    match Line::from("K=v") {
        Line::KeyVal(kv) => assert_eq!((kv.k.as_str(), kv.v.as_str()), ("K", "v")),
        other => panic!("not an assignment: {:?}", other),
    }
}

#[test]
fn trim_removes_unicode_whitespace() {
    assert_eq!(zenv::trim("\u{3000} a b \t\r"), "a b");
    assert_eq!(zenv::trim("   "), "");
    assert_eq!(zenv::trim("x"), "x");
}

#[test]
fn split_lines_follows_line_endings() {
    assert_eq!(zenv::split_lines(""), Vec::<String>::new());
    assert_eq!(zenv::split_lines("a\nb"), vec!["a".to_string(), "b".to_string()]);
    assert_eq!(zenv::split_lines("a\r\nb\r\n"), vec!["a".to_string(), "b".to_string()]);
    assert_eq!(zenv::split_lines("\n\nx"), vec!["".to_string(), "".to_string(), "x".to_string()]);
    assert_eq!(zenv::split_lines("a\r"), vec!["a\r".to_string()]);
}

#[test]
fn whitespace_agrees_with_std_on_every_char() {
    for u in 0..=0x10FFFFu32 {
        if let Some(c) = char::from_u32(u) {
            assert_eq!(zenv::is_whitespace(c), c.is_whitespace(), "U+{:04X}", u);
        }
    }
}
