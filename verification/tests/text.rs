use tapir_bot::text::{
    contains, decimal, ends_with, find, is_white_space, join, lines, split_once, strip_prefix, trim,
    trim_end_set, trim_set, trim_start_set, CharSet,
};

#[test]
fn white_space_is_the_unicode_property() {
    for c in '\0'..=char::MAX {
        assert_eq!(is_white_space(c), c.is_whitespace(), "{c:?}");
    }
}

#[test]
fn trimming_agrees_with_std() {
    for s in ["", " ", " a ", "\u{a0}x\u{3000}", "a b", "\n\ta\r\n", "é ", " ü"] {
        assert_eq!(trim(s), s.trim(), "{s:?}");
        assert_eq!(trim_start_set(s, CharSet::Space), s.trim_start(), "{s:?}");
        assert_eq!(trim_end_set(s, CharSet::Space), s.trim_end(), "{s:?}");
    }
    assert_eq!(trim_start_set("## a#", CharSet::One('#')), " a#");
    assert_eq!(trim_set("\"'a'\"", CharSet::Either('"', '\'')), "a");
}

#[test]
fn searching_and_splitting_agree_with_std() {
    assert_eq!(split_once("a:b:c", CharSet::One(':')), "a:b:c".split_once(':'));
    assert_eq!(split_once("abc", CharSet::One(':')), None);
    assert_eq!(split_once(":", CharSet::One(':')), Some(("", "")));
    assert_eq!(find("aéb", "b"), Some(2), "counted in characters");
    assert_eq!(find("abab", "ab"), Some(0));
    assert_eq!(find("abc", ""), Some(0));
    assert_eq!(find("", "a"), None);
    assert!(contains("hay needle stack", "needle") && !contains("hay", "needle"));
    assert_eq!(strip_prefix("abc", "ab"), Some("c"));
    assert_eq!(strip_prefix("abc", "b"), None);
    assert!(ends_with("abc", "bc") && ends_with("abc", "") && !ends_with("c", "bc"));
}

#[test]
fn lines_agree_with_std() {
    for s in ["", "a", "a\n", "a\nb", "a\r\nb\r", "\n\n", "\r\n", "a\n\nb\n"] {
        let expected: Vec<&str> = s.lines().collect();
        assert_eq!(lines(s), expected, "{s:?}");
    }
}

#[test]
fn joining_agrees_with_std() {
    let parts: Vec<String> = vec!["a".into(), "".into(), "c".into()];
    assert_eq!(join(&parts, ", "), parts.join(", "));
    assert_eq!(join(&Vec::new(), ", "), "");
}

#[test]
fn decimal_agrees_with_std() {
    for n in [0, 7, 10, 99, 100, 1000, 4294967295] {
        assert_eq!(decimal(n), n.to_string());
    }
}
