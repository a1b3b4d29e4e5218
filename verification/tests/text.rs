use mods_easy::decimal::{decimal_of, padded_of};
use mods_easy::lines::{joined, lines_of, split_on, terminate};
use mods_easy::order::{comes_before, sort};
use mods_easy::text::{
    eq_ignoring_case, has, has_prefix, has_suffix, replaced, strip_prefix, to_ascii_lower, trimmed,
};

fn words(list: &[&str]) -> Vec<String> {
    list.iter().map(|s| s.to_string()).collect()
}

#[test]
fn lines_drop_the_line_ends() {
    assert_eq!(lines_of("a\r\nb\n\nc\r"), vec!["a", "b", "", "c\r"]);
    assert!(lines_of("").is_empty());
    assert_eq!(lines_of("\n"), vec![""]);
}

#[test]
fn terminated_lines_are_read_back() {
    let ls = words(&["a", "", "b c"]);
    let text = terminate(&ls);
    assert_eq!(text, "a\n\nb c\n");
    assert_eq!(lines_of(&text), ls);
}

#[test]
fn splitting_keeps_empty_pieces() {
    assert_eq!(split_on("1.21.1", '.'), vec!["1", "21", "1"]);
    assert_eq!(split_on("", '.'), vec![""]);
    assert_eq!(split_on("a..b.", '.'), vec!["a", "", "b", ""]);
}

#[test]
fn joining_puts_separators_between() {
    assert_eq!(joined(&words(&["a", "b", "c"]), ", "), "a, b, c");
    assert_eq!(joined(&words(&[]), ", "), "");
    assert_eq!(joined(&words(&["a"]), ", "), "a");
}

#[test]
fn searching_agrees_with_the_standard_library() {
    let texts = ["", "a", "aXa", "overrides/mods/x.jar", "Grüße", "aaa"];
    let pieces = ["", "a", "overrides/", "e", "aa", "ß", "x.jar"];
    for s in texts {
        for p in pieces {
            assert_eq!(has(s, p), s.contains(p), "{s} {p}");
            assert_eq!(has_prefix(s, p), s.starts_with(p));
            assert_eq!(has_suffix(s, p), s.ends_with(p));
            assert_eq!(strip_prefix(s, p), s.strip_prefix(p).map(String::from));
            assert_eq!(replaced(s, p, "<>"), s.replace(p, "<>"), "{s} {p}");
        }
    }
}

#[test]
fn case_folding_is_ascii_only() {
    assert_eq!(to_ascii_lower("NeoForge-ÄZ"), "neoforge-Äz");
    assert!(eq_ignoring_case("LaTeSt", "latest"));
    assert!(!eq_ignoring_case("latest", "lates"));
}

#[test]
fn trimming_takes_white_space_only() {
    for s in ["", " ", " a ", "\u{a0}b\u{3000}", "\tc d\r\n", "e"] {
        assert_eq!(trimmed(s), s.trim());
    }
}

#[test]
fn numbers_are_written_in_decimal() {
    for n in [0u64, 7, 10, 999, 4926069, u64::MAX] {
        assert_eq!(decimal_of(n), n.to_string());
    }
    assert_eq!(padded_of(69, 3), "069");
    assert_eq!(padded_of(12345, 4), "12345");
}

#[test]
fn names_sort_by_their_characters() {
    let names = words(&["b", "a", "ab", "", "B", "é", "a"]);
    let mut expected = names.clone();
    expected.sort();
    assert_eq!(sort(names), expected);
    assert!(comes_before("mods.backup-2024", "mods.backup-2025"));
    assert!(!comes_before("a", "a"));
}
