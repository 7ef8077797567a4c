use mini_grep::compiler::parse_pattern;
use mini_grep::engine::match_pattern;

fn grep(input: &str, pattern: &str) -> bool {
    let tokens = parse_pattern(pattern).unwrap();
    match_pattern(input, &tokens)
}

#[test]
fn single_literal_means_contains() {
    assert!(grep("dog", "o"));
    assert!(grep("o", "o"));
    assert!(!grep("dag", "o"));
    assert!(!grep("", "o"));
    assert!(grep("+", "+"));
}

#[test]
fn digit_class() {
    assert!(grep("abc1", "\\d"));
    assert!(grep("9\n", "\\d"));
    assert!(!grep("abc", "\\d"));
    assert!(!grep("", "\\d"));
    assert!(!grep("\u{0663}", "\\d"));
}

#[test]
fn word_class() {
    assert!(grep("!!x!", "\\w"));
    assert!(grep("7", "\\w"));
    assert!(grep("\u{e9}", "\\w"));
    assert!(!grep("!?_ -", "\\w"));
}

#[test]
fn positive_group() {
    assert!(grep("xxcx", "[abc]"));
    assert!(grep("a", "[abc]"));
    assert!(!grep("xyz", "[abc]"));
    assert!(!grep("abc", "[]"));
}

#[test]
fn negative_group() {
    assert!(grep("abcd", "[^abc]"));
    assert!(!grep("cab", "[^abc]"));
    assert!(!grep("cab\n", "[^abc]"));
    assert!(grep("a", "[^]"));
    assert!(!grep("", "[^]"));
}

#[test]
fn anchored_both_ends() {
    assert!(grep("abc", "^abc$"));
    assert!(!grep("xabc", "^abc$"));
    assert!(!grep("abcx", "^abc$"));
    assert!(grep("abc\r\n", "^abc$"));
}

#[test]
fn start_anchor_only() {
    assert!(grep("abcdef", "^abc"));
    assert!(!grep("xabc", "^abc"));
}

#[test]
fn end_anchor_only() {
    assert!(grep("xxabc", "abc$"));
    assert!(!grep("abcx", "abc$"));
}

#[test]
fn start_anchor_in_the_middle_fails() {
    assert!(!grep("xy", "x^"));
}

#[test]
fn end_anchor_in_the_middle_fails() {
    assert!(!grep("ab", "a$b"));
}

#[test]
fn one_or_more() {
    assert!(grep("aaab", "a+b"));
    assert!(grep("ab", "a+b"));
    assert!(!grep("b", "a+b"));
}

#[test]
fn one_or_more_still_running_at_end_of_line_does_not_match() {
    assert!(!grep("aaa", "a+"));
}

#[test]
fn plus_after_digit_class_is_literal() {
    assert!(grep("1+", "\\d+"));
    assert!(!grep("12", "\\d+"));
    assert!(!grep("12345\n", "^\\d+$"));
}

#[test]
fn pattern_used_up_before_line_end_matches() {
    assert!(grep("xxabcxx", "abc"));
}

#[test]
fn restart_does_not_back_up() {
    assert!(!grep("aaab", "aab"));
}

#[test]
fn anchor_only_patterns() {
    assert!(grep("", "^"));
    assert!(grep("abc", "^"));
    assert!(grep("", "$"));
    assert!(grep("abc", "$"));
}
