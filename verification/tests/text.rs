use icon_registry::text::{
    after_last, append, chars_of, contains, ends_with, find_from, matches_at, position, replace,
    slice, string_of,
};

fn letters(text: &str) -> Vec<char> {
    text.chars().collect()
}

fn written(chars: Vec<char>) -> String {
    chars.into_iter().collect()
}

#[test]
fn characters_and_text_convert_both_ways() {
    assert_eq!(chars_of("a\u{e9}b"), vec!['a', '\u{e9}', 'b']);
    assert_eq!(chars_of(""), Vec::<char>::new());
    assert_eq!(string_of(&vec!['a', '\u{e9}', 'b']), "a\u{e9}b");
    assert_eq!(string_of(&Vec::new()), "");
}

#[test]
fn append_adds_at_the_end() {
    let mut out = letters("ab");
    append(&mut out, &letters("cd"));
    assert_eq!(written(out), "abcd");
}

#[test]
fn slice_takes_a_range() {
    assert_eq!(written(slice(&letters("abcdef"), 2, 4)), "cd");
    assert_eq!(written(slice(&letters("abcdef"), 3, 3)), "");
    assert_eq!(written(slice(&letters("abcdef"), 0, 6)), "abcdef");
}

#[test]
fn literal_is_matched_at_an_index() {
    let hay = letters("abcabc");
    assert!(matches_at(&hay, &letters("bc"), 1));
    assert!(matches_at(&hay, &letters("bc"), 4));
    assert!(!matches_at(&hay, &letters("bc"), 0));
    assert!(!matches_at(&hay, &letters("bc"), 5));
    assert!(!matches_at(&hay, &letters("bc"), 9));
    assert!(matches_at(&hay, &letters(""), 6));
    assert!(!matches_at(&hay, &letters(""), 7));
}

#[test]
fn first_occurrence_is_found() {
    let hay = letters("abcabc");
    assert_eq!(find_from(&hay, &letters("bc"), 0), Some(1));
    assert_eq!(find_from(&hay, &letters("bc"), 1), Some(1));
    assert_eq!(find_from(&hay, &letters("bc"), 2), Some(4));
    assert_eq!(find_from(&hay, &letters("bc"), 5), None);
    assert_eq!(find_from(&hay, &letters("bd"), 0), None);
    assert_eq!(find_from(&hay, &letters("abcabcd"), 0), None);
    assert_eq!(find_from(&hay, &letters("bc"), 100), None);
}

#[test]
fn substring_is_recognized() {
    assert!(contains(&letters("<svg fill=\"none\">"), &letters("fill=")));
    assert!(!contains(&letters("<svg>"), &letters("fill=")));
    assert!(contains(&letters("<svg>"), &letters("")));
    assert!(contains(&letters(""), &letters("")));
    assert!(!contains(&letters(""), &letters("a")));
}

#[test]
fn suffix_is_recognized() {
    assert!(ends_with(&letters("check.svg"), &letters(".svg")));
    assert!(!ends_with(&letters("check.svg.bak"), &letters(".svg")));
    assert!(!ends_with(&letters("svg"), &letters(".svg")));
    assert!(ends_with(&letters(".svg"), &letters(".svg")));
}

#[test]
fn first_character_is_found() {
    assert_eq!(position(&letters("a.b.c"), '.'), Some(1));
    assert_eq!(position(&letters("abc"), '.'), None);
    assert_eq!(position(&letters(""), '.'), None);
}

#[test]
fn last_segment_follows_the_last_separator() {
    assert_eq!(written(after_last(&letters("feather/icons/check.svg"), '/')), "check.svg");
    assert_eq!(written(after_last(&letters("check.svg"), '/')), "check.svg");
    assert_eq!(written(after_last(&letters("icons/"), '/')), "");
}

#[test]
fn every_occurrence_is_replaced_from_the_left() {
    assert_eq!(written(replace(&letters("aaa"), &letters("aa"), &letters("b"))), "ba");
    assert_eq!(written(replace(&letters("xlink:href xlink:href"), &letters("xlink:href"), &letters("href"))), "href href");
    assert_eq!(written(replace(&letters("abc"), &letters("b"), &letters(""))), "ac");
    assert_eq!(written(replace(&letters("abc"), &letters("d"), &letters("x"))), "abc");
    assert_eq!(written(replace(&letters("abc"), &letters(""), &letters("x"))), "abc");
    assert_eq!(written(replace(&letters("abab"), &letters("ab"), &letters("abab"))), "abababab");
}
