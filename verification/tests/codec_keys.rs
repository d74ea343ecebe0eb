use state_search::codec::{
    extract_integer_fragment, extract_string_fragment, is_suitable_for_index, parse_key, Fragment,
};

fn as_string(f: &Fragment) -> Option<&str> {
    match f {
        Fragment::String(s) => Some(s.as_str()),
        Fragment::Integer(_) => None,
    }
}

fn as_integer(f: &Fragment) -> Option<i64> {
    match f {
        Fragment::String(_) => None,
        Fragment::Integer(n) => Some(*n),
    }
}

#[test]
fn decodes_mixed_key_into_typed_fragments() {
    let frags = parse_key("$abc#42$xyz").expect("key is suitable");
    assert_eq!(frags.len(), 3);
    assert_eq!(as_string(&frags[0]), Some("abc"));
    assert_eq!(as_integer(&frags[1]), Some(42));
    assert_eq!(as_string(&frags[2]), Some("xyz"));
    for position in 3..11 {
        assert_eq!(extract_string_fragment(&frags, position), None);
        assert_eq!(extract_integer_fragment(&frags, position), None);
    }
    assert_eq!(extract_string_fragment(&frags, 0).as_deref(), Some("abc"));
    assert_eq!(extract_integer_fragment(&frags, 0), None);
    assert_eq!(extract_integer_fragment(&frags, 1), Some(42));
}

#[test]
fn key_without_leading_separator_is_not_suitable() {
    assert!(parse_key("plainkey").is_none());
    assert!(!is_suitable_for_index("plainkey"));
}

#[test]
fn empty_key_is_not_suitable() {
    assert!(parse_key("").is_none());
    assert!(!is_suitable_for_index(""));
}

#[test]
fn lone_separator_is_one_empty_string_fragment() {
    let frags = parse_key("$").expect("suitable");
    assert_eq!(frags.len(), 1);
    assert_eq!(as_string(&frags[0]), Some(""));
}

#[test]
fn string_fragment_runs_to_next_separator_or_end() {
    let frags = parse_key("$a b$c").expect("suitable");
    assert_eq!(frags.len(), 2);
    assert_eq!(as_string(&frags[0]), Some("a b"));
    assert_eq!(as_string(&frags[1]), Some("c"));
}

#[test]
fn integer_fragment_may_be_negative() {
    let frags = parse_key("#-5").expect("suitable");
    assert_eq!(frags.len(), 1);
    assert_eq!(as_integer(&frags[0]), Some(-5));
}

#[test]
fn integer_fragment_bounds() {
    let max = parse_key("#9223372036854775807").expect("suitable");
    assert_eq!(as_integer(&max[0]), Some(i64::MAX));
    let min = parse_key("#-9223372036854775808").expect("suitable");
    assert_eq!(as_integer(&min[0]), Some(i64::MIN));
    assert!(parse_key("#9223372036854775808").is_none());
    assert!(parse_key("#99999999999999999999999").is_none());
}

#[test]
fn malformed_integer_fragments_are_not_tokenizable() {
    assert!(parse_key("#abc").is_none());
    assert!(parse_key("#").is_none());
    assert!(parse_key("#-").is_none());
    assert!(parse_key("$abc#").is_none());
}

#[test]
fn fragments_beyond_the_eleventh_are_dropped() {
    let key = "$a$b$c$d$e$f$g$h$i$j$k$l$m";
    let frags = parse_key(key).expect("suitable");
    assert_eq!(frags.len(), 11);
    assert_eq!(as_string(&frags[0]), Some("a"));
    assert_eq!(as_string(&frags[10]), Some("k"));
}

#[test]
fn multibyte_text_fragments_decode() {
    let frags = parse_key("$\u{4e16}\u{754c}#1").expect("suitable");
    assert_eq!(frags.len(), 2);
    assert_eq!(as_string(&frags[0]), Some("\u{4e16}\u{754c}"));
    assert_eq!(as_integer(&frags[1]), Some(1));
}
