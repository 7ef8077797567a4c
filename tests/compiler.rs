use mini_grep::compiler::parse_pattern;
use mini_grep::pattern::{CompileError, Pattern};

#[test]
fn compiles_digit_escape() {
    assert_eq!(parse_pattern("\\d"), Ok(vec![Pattern::Digit]));
}

#[test]
fn compiles_other_escapes_as_alphanumeric() {
    assert_eq!(parse_pattern("\\w"), Ok(vec![Pattern::Alphanumeric]));
    assert_eq!(parse_pattern("\\s"), Ok(vec![Pattern::Alphanumeric]));
}

#[test]
fn compiles_positive_group() {
    assert_eq!(
        parse_pattern("[abc]"),
        Ok(vec![Pattern::PositiveGroup(vec!['a', 'b', 'c'])])
    );
}

#[test]
fn compiles_negative_group() {
    assert_eq!(
        parse_pattern("[^abc]"),
        Ok(vec![Pattern::NegativeGroup(vec!['a', 'b', 'c'])])
    );
}

#[test]
fn compiles_empty_groups() {
    assert_eq!(parse_pattern("[]"), Ok(vec![Pattern::PositiveGroup(vec![])]));
    assert_eq!(parse_pattern("[^]"), Ok(vec![Pattern::NegativeGroup(vec![])]));
}

#[test]
fn compiles_two_groups_in_a_row() {
    assert_eq!(
        parse_pattern("[a][^b]"),
        Ok(vec![
            Pattern::PositiveGroup(vec!['a']),
            Pattern::NegativeGroup(vec!['b']),
        ])
    );
}

#[test]
fn compiles_anchors_and_literals() {
    assert_eq!(
        parse_pattern("^abc$"),
        Ok(vec![
            Pattern::StartAnchor,
            Pattern::Symbol('a'),
            Pattern::Symbol('b'),
            Pattern::Symbol('c'),
            Pattern::EndAnchor,
        ])
    );
}

#[test]
fn compiles_one_or_more_on_a_literal() {
    assert_eq!(
        parse_pattern("a+b"),
        Ok(vec![Pattern::OneOrMore('a'), Pattern::Symbol('b')])
    );
}

#[test]
fn plus_after_a_class_is_a_literal() {
    assert_eq!(
        parse_pattern("\\d+"),
        Ok(vec![Pattern::Digit, Pattern::Symbol('+')])
    );
    assert_eq!(
        parse_pattern("^\\d+$"),
        Ok(vec![
            Pattern::StartAnchor,
            Pattern::Digit,
            Pattern::Symbol('+'),
            Pattern::EndAnchor,
        ])
    );
}

#[test]
fn lone_plus_is_a_literal() {
    assert_eq!(parse_pattern("+"), Ok(vec![Pattern::Symbol('+')]));
}

#[test]
fn closing_bracket_outside_a_group_is_a_literal() {
    assert_eq!(
        parse_pattern("a]"),
        Ok(vec![Pattern::Symbol('a'), Pattern::Symbol(']')])
    );
}

#[test]
fn empty_pattern_compiles_to_no_tokens() {
    assert_eq!(parse_pattern(""), Ok(vec![]));
}

#[test]
fn unterminated_group_is_malformed() {
    assert_eq!(parse_pattern("[abc"), Err(CompileError::MalformedPattern));
    assert_eq!(parse_pattern("x[^"), Err(CompileError::MalformedPattern));
}

#[test]
fn dangling_escape_is_malformed() {
    assert_eq!(parse_pattern("\\"), Err(CompileError::MalformedPattern));
    assert_eq!(parse_pattern("ab\\"), Err(CompileError::MalformedPattern));
}

#[test]
fn compiling_twice_gives_equal_tokens() {
    for p in ["^a+[xy]\\d$", "[^q]\\w", "[oops", "\\"] {
        assert_eq!(parse_pattern(p), parse_pattern(p));
    }
}
