use ar5iv::pattern::{group_text, replace_fixed, replace_with_fixed, scan, weave};
use ar5iv::text::{
    chars_of, contains_chars, find_from, prefix_at, replace_first, split_chars, suffix_of, text_of,
    text_of_range,
};

fn strings(items: &[&str]) -> Vec<String> {
    items.iter().map(|s| s.to_string()).collect()
}

#[test]
fn weave_lays_out_gaps_and_replacements_in_turn() {
    assert_eq!(weave(&strings(&["a", "b", "c"]), &strings(&["1", "2"])), "a1b2c");
    assert_eq!(weave(&strings(&["", "", ""]), &strings(&["x", "y"])), "xy");
    assert_eq!(weave(&strings(&["only"]), &strings(&[])), "only");
    assert_eq!(weave(&strings(&[]), &strings(&[])), "");
}

#[test]
fn weave_leaves_out_what_has_no_gap_before_it() {
    assert_eq!(weave(&strings(&["a", "b"]), &strings(&["1", "2", "3"])), "a1b2");
    assert_eq!(weave(&strings(&["a", "b", "c"]), &strings(&["1"])), "a1bc");
    assert_eq!(weave(&strings(&[]), &strings(&["1"])), "");
}

#[test]
fn scan_finds_gaps_and_groups() {
    let s = scan("(a)(b)?", "xaby a").unwrap();
    assert_eq!(s.gaps, strings(&["x", "y ", ""]));
    assert_eq!(
        s.found,
        vec![
            vec![Some("ab".to_string()), Some("a".to_string()), Some("b".to_string())],
            vec![Some("a".to_string()), Some("a".to_string()), None],
        ]
    );
}

#[test]
fn scan_of_a_text_without_match_is_one_gap() {
    let s = scan("z+", "abc").unwrap();
    assert_eq!(s.gaps, strings(&["abc"]));
    assert!(s.found.is_empty());
}

#[test]
fn scan_gaps_and_matches_make_up_the_text() {
    let texts = ["", "a", "aXbXXc", "XX", "é X ü", "no match"];
    for text in texts {
        let s = scan("X", text).unwrap();
        assert_eq!(s.gaps.len(), s.found.len() + 1);
        let wholes: Vec<String> = s.found.iter().map(|m| group_text(m, 0).to_string()).collect();
        assert_eq!(weave(&s.gaps, &wholes), text);
    }
}

#[test]
fn scan_refuses_a_broken_pattern() {
    assert!(scan("(", "abc").is_none());
    assert!(scan("[a-", "abc").is_none());
}

#[test]
fn group_text_of_present_absent_and_missing_groups() {
    let found = vec![Some("whole".to_string()), None, Some("two".to_string())];
    assert_eq!(group_text(&found, 0), "whole");
    assert_eq!(group_text(&found, 1), "");
    assert_eq!(group_text(&found, 2), "two");
    assert_eq!(group_text(&found, 3), "");
}

#[test]
fn fixed_replacements_for_all_or_for_the_first() {
    let found = vec![
        vec![Some("m0".to_string())],
        vec![Some("m1".to_string())],
        vec![Some("m2".to_string())],
    ];
    assert_eq!(replace_with_fixed(&found, "R", false), strings(&["R", "R", "R"]));
    assert_eq!(replace_with_fixed(&found, "R", true), strings(&["R", "m1", "m2"]));
    assert_eq!(replace_with_fixed(&Vec::new(), "R", true), strings(&[]));
}

#[test]
fn replace_fixed_replaces_all_or_the_first() {
    assert_eq!(replace_fixed("o", "foo boo", "0", false), "f00 b00");
    assert_eq!(replace_fixed("o", "foo boo", "0", true), "f0o boo");
    assert_eq!(replace_fixed("o+", "foo boo", "", false), "f b");
    assert_eq!(replace_fixed("x", "foo boo", "0", false), "foo boo");
}

#[test]
fn replace_fixed_takes_the_replacement_as_it_is() {
    assert_eq!(replace_fixed("(b)", "abc", "$1$1", true), "a$1$1c");
}

#[test]
fn replace_fixed_with_a_broken_pattern_changes_nothing() {
    assert_eq!(replace_fixed("(", "a(b", "x", false), "a(b");
}

#[test]
fn chars_and_text_are_inverse() {
    for s in ["", "abc", "é数∑", "a\nb\tc"] {
        assert_eq!(text_of(&chars_of(s)), s);
        assert_eq!(chars_of(s), s.chars().collect::<Vec<char>>());
    }
    assert_eq!(text_of_range(&chars_of("héllo"), 1, 4), "éll");
    assert_eq!(text_of_range(&chars_of("héllo"), 2, 2), "");
}

#[test]
fn prefix_suffix_and_find() {
    let t = chars_of("abcabc");
    assert!(prefix_at(&t, 0, &chars_of("abc")));
    assert!(prefix_at(&t, 3, &chars_of("abc")));
    assert!(!prefix_at(&t, 1, &chars_of("abc")));
    assert!(!prefix_at(&t, 4, &chars_of("abc")));
    assert!(prefix_at(&t, 6, &chars_of("")));
    assert!(!prefix_at(&t, 7, &chars_of("")));
    assert!(suffix_of(&t, &chars_of("bc")));
    assert!(!suffix_of(&t, &chars_of("ab")));
    assert!(!suffix_of(&chars_of("c"), &chars_of("bc")));
    assert_eq!(find_from(&t, &chars_of("bc"), 0), Some(1));
    assert_eq!(find_from(&t, &chars_of("bc"), 2), Some(4));
    assert_eq!(find_from(&t, &chars_of("bc"), 5), None);
    assert_eq!(find_from(&t, &chars_of("x"), 0), None);
    assert_eq!(find_from(&t, &chars_of(""), 6), Some(6));
    assert_eq!(find_from(&t, &chars_of(""), 7), None);
    assert!(contains_chars(&t, &chars_of("cab")));
    assert!(!contains_chars(&t, &chars_of("cc")));
}

#[test]
fn replace_first_replaces_the_leftmost_occurrence() {
    assert_eq!(replace_first("a-b-c", "-", "+"), "a+b-c");
    assert_eq!(replace_first("abc", "x", "+"), "abc");
    assert_eq!(replace_first("aaa", "aa", "b"), "ba");
    assert_eq!(replace_first("", "", "x"), "x");
    assert_eq!(replace_first("ab", "", "x"), "xab");
}

#[test]
fn split_keeps_empty_pieces() {
    let pieces = |s: &str, sep: char| -> Vec<String> {
        split_chars(&chars_of(s), sep).iter().map(|p| text_of(p)).collect()
    };
    assert_eq!(pieces("a;b;c", ';'), strings(&["a", "b", "c"]));
    assert_eq!(pieces("", ';'), strings(&[""]));
    assert_eq!(pieces(";", ';'), strings(&["", ""]));
    assert_eq!(pieces("a;;b;", ';'), strings(&["a", "", "b", ""]));
    assert_eq!(pieces("abc", ';'), strings(&["abc"]));
    for s in ["", "a", ";a;", "x;y", ";;;"] {
        let expected: Vec<String> = s.split(';').map(|p| p.to_string()).collect();
        assert_eq!(pieces(s, ';'), expected);
    }
}
