use lingua::utils::{
    contains_string, is_digit, join_with, lowercase, match_tone, normalize_char, normalize_word,
    remove_spaces, split_spaces, trim_str,
};

#[test]
fn test_match_tone() {
    assert_eq!(match_tone('ā'), 1);
    assert_eq!(match_tone('á'), 2);
    assert_eq!(match_tone('ǎ'), 3);
    assert_eq!(match_tone('à'), 4);
    assert_eq!(match_tone('a'), 5);
}

#[test]
fn test_normalize_char() {
    assert_eq!(normalize_char('ā'), 'a');
    assert_eq!(normalize_char('á'), 'a');
    assert_eq!(normalize_char('ǎ'), 'a');
    assert_eq!(normalize_char('à'), 'a');
    assert_eq!(normalize_char('a'), 'a');
}

#[test]
fn test_normalize_word() {
    assert_eq!(normalize_word("āáǎàa"), "aaaaa");
}

#[test]
fn test_normalize_word_keeps_other_rows() {
    assert_eq!(normalize_word("qǐng"), "qing");
    assert_eq!(normalize_word("nǚ"), "nu");
    assert_eq!(normalize_word(""), "");
    assert_eq!(normalize_word("wǒ ài"), "wo ai");
}

#[test]
fn test_match_tone_other_rows() {
    assert_eq!(match_tone('ē'), 1);
    assert_eq!(match_tone('í'), 2);
    assert_eq!(match_tone('ǒ'), 3);
    assert_eq!(match_tone('ù'), 4);
    assert_eq!(match_tone('ü'), 5);
    assert_eq!(match_tone('請'), 5);
}

#[test]
fn test_split_spaces() {
    let toks = split_spaces("ni3  hao3\tle ");
    assert_eq!(toks, vec!["ni3".to_string(), "hao3".to_string(), "le".to_string()]);
    let empty = split_spaces("   ");
    assert!(empty.is_empty());
    let one = split_spaces("qing3");
    assert_eq!(one, vec!["qing3".to_string()]);
}

#[test]
fn test_join_with() {
    let parts = vec!["a".to_string(), "b".to_string(), "c".to_string()];
    assert_eq!(join_with(&parts, ", "), "a, b, c");
    let single = vec!["x".to_string()];
    assert_eq!(join_with(&single, ", "), "x");
    let none: Vec<String> = Vec::new();
    assert_eq!(join_with(&none, ", "), "");
}

#[test]
fn test_trim_and_remove_spaces() {
    assert_eq!(trim_str("  ni hao \t"), "ni hao");
    assert_eq!(trim_str(""), "");
    assert_eq!(trim_str(" \n "), "");
    assert_eq!(remove_spaces("ni hao le"), "nihaole");
    assert_eq!(remove_spaces("abc"), "abc");
}

#[test]
fn test_lowercase_and_digits() {
    assert_eq!(lowercase("Nǐ HǍO"), "nǐ hǎo");
    assert!(is_digit('3'));
    assert!(!is_digit('q'));
}

#[test]
fn test_contains_string() {
    let v = vec!["hello".to_string(), "world".to_string()];
    assert!(contains_string(&v, &"world".to_string()));
    assert!(!contains_string(&v, &"World".to_string()));
}
