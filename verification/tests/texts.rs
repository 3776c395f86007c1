use state_tables::number::{parse_u32, push_decimal};
use state_tables::text::{
    contains, ends_with, find, is_space, replace, split, split_once, starts_with, strip_prefix,
    strip_suffix, to_chars, to_string, trim, trim_end, trim_start,
};
use state_tables::unescape::{collapse, unescape};
use state_tables::error::ParseError;

fn s(chars: &[char]) -> String {
    to_string(chars)
}

#[test]
fn a_string_goes_to_characters_and_back() {
    let chars = to_chars("a\u{201c}b");
    assert_eq!(chars, vec!['a', '\u{201c}', 'b']);
    assert_eq!(to_string(&chars), "a\u{201c}b");
    assert_eq!(to_string(&['x', 'y']), "xy");
    assert_eq!(to_string(&[]), "");
}

#[test]
fn finds_the_first_occurrence() {
    let t = to_chars("abcabc");
    assert_eq!(find(&t, "bc"), Some(1));
    assert_eq!(find(&t, "abc"), Some(0));
    assert_eq!(find(&t, "cab"), Some(2));
    assert_eq!(find(&t, "x"), None);
    assert_eq!(find(&t, "abcabcd"), None);
    assert_eq!(find(&t, ""), Some(0));
    assert_eq!(find(&[], ""), Some(0));
    assert!(contains(&t, "ca"));
    assert!(!contains(&t, "cc"));
}

#[test]
fn tells_prefixes_and_suffixes() {
    let t = to_chars("hello");
    assert!(starts_with(&t, "he"));
    assert!(!starts_with(&t, "el"));
    assert!(ends_with(&t, "llo"));
    assert!(!ends_with(&t, "hell"));
    assert!(!ends_with(&t, "xhello"));
    assert_eq!(strip_prefix(&t, "he").map(s), Some("llo".to_string()));
    assert_eq!(strip_prefix(&t, "lo").map(s), None);
    assert_eq!(strip_suffix(&t, "lo").map(s), Some("hel".to_string()));
    assert_eq!(strip_suffix(&t, "he").map(s), None);
    assert_eq!(strip_suffix(&t, "hello").map(s), Some(String::new()));
}

#[test]
fn splits_at_the_first_occurrence() {
    let t = to_chars("a; b; c");
    let (a, b) = split_once(&t, "; ").unwrap();
    assert_eq!((s(a), s(b)), ("a".to_string(), "b; c".to_string()));
    assert!(split_once(&t, ", ").is_none());
}

#[test]
fn splits_at_every_comma() {
    let t = to_chars("a,,b,");
    let pieces: Vec<String> = split(&t, ',').into_iter().map(s).collect();
    assert_eq!(pieces, vec!["a", "", "b", ""]);
    let none: Vec<String> = split(&[], ',').into_iter().map(s).collect();
    assert_eq!(none, vec![""]);
}

#[test]
fn replaces_every_occurrence() {
    assert_eq!(s(&replace(&to_chars("aXbXXc"), "X", "--")), "a--b----c");
    assert_eq!(s(&replace(&to_chars("aaa"), "aa", "b")), "ba");
    assert_eq!(s(&replace(&to_chars("abc"), "x", "y")), "abc");
    assert_eq!(s(&replace(&to_chars("ab"), "", "-")), "-a-b-");
    assert_eq!(s(&replace(&to_chars("abc"), "abc", "")), "");
}

#[test]
fn trims_white_space() {
    let t = to_chars(" \t a b \n");
    assert_eq!(s(trim(&t)), "a b");
    assert_eq!(s(trim_start(&t)), "a b \n");
    assert_eq!(s(trim_end(&t)), " \t a b");
    assert_eq!(s(trim(&to_chars("   "))), "");
    assert!(is_space('\u{a0}'));
    assert!(is_space('\u{3000}'));
    assert!(!is_space('\u{200b}'));
    assert!(!is_space('a'));
}

#[test]
fn collapses_runs_of_white_space() {
    assert_eq!(s(&collapse(&to_chars("  a \n\t b  c "))), "a b c");
    assert_eq!(s(&collapse(&to_chars(""))), "");
    assert_eq!(s(&collapse(&to_chars(" \n "))), "");
    assert_eq!(s(&collapse(&to_chars("word"))), "word");
}

#[test]
fn reads_numerals() {
    assert_eq!(parse_u32(&to_chars("0")), Some(0));
    assert_eq!(parse_u32(&to_chars("007")), Some(7));
    assert_eq!(parse_u32(&to_chars("+5")), Some(5));
    assert_eq!(parse_u32(&to_chars("4294967295")), Some(4294967295));
    assert_eq!(parse_u32(&to_chars("4294967296")), None);
    assert_eq!(parse_u32(&to_chars("99999999999999999999999")), None);
    assert_eq!(parse_u32(&to_chars("")), None);
    assert_eq!(parse_u32(&to_chars("+")), None);
    assert_eq!(parse_u32(&to_chars("-5")), None);
    assert_eq!(parse_u32(&to_chars("12a")), None);
    assert_eq!(parse_u32(&to_chars("1 ")), None);
    assert_eq!(parse_u32(&to_chars("++1")), None);
}

#[test]
fn writes_numerals() {
    for (n, text) in [(0u64, "0"), (7, "7"), (10, "10"), (4294967295, "4294967295")] {
        let mut out = Vec::new();
        push_decimal(&mut out, n);
        assert_eq!(s(&out), text);
    }
}

fn plain(text: &str) -> Result<String, ParseError> {
    unescape(&to_chars(text)).map(|v| to_string(&v))
}

#[test]
fn unescape_makes_text_plain() {
    assert_eq!(plain("MAX\\_TEXTURE\\_SIZE"), Ok("MAX_TEXTURE_SIZE".to_string()));
    assert_eq!(plain("frame\\-buffer"), Ok("framebuffer".to_string()));
    assert_eq!(plain("a   b\n c"), Ok("a b c".to_string()));
    assert_eq!(plain("``quoted''"), Ok("\u{201c}quoted\u{201d}".to_string()));
    assert_eq!(plain("\\small text"), Ok("text".to_string()));
    assert_eq!(plain("\\change new \\ochange old"), Ok("new old".to_string()));
}

#[test]
fn unescape_opens_groups_around_change_markers() {
    assert_eq!(plain("a {\\change b} c"), Ok("a b c".to_string()));
    assert_eq!(plain("a {\\ochange b {c}} d"), Ok("a b {c} d".to_string()));
    assert_eq!(plain("{\\change x}{\\ochange y}"), Ok("x y".to_string()));
}

#[test]
fn unescape_drops_issue_references() {
    assert_eq!(plain("a \\change\\cbext{Bug 1234} b"), Ok("a b".to_string()));
}

#[test]
fn unescape_refuses_unbalanced_groups() {
    assert_eq!(plain("a {\\change b"), Err(ParseError::UnbalancedSpan));
    assert_eq!(plain("a \\change\\cbext{b"), Err(ParseError::UnbalancedSpan));
}
