//! Properties of compiling and matching, stated over the models and proved.
use vstd::prelude::*;
use crate::compiler::{compile, compile_from, compiled_view, close_from};
use crate::engine::{alnum_of, char_matches, is_decimal_digit, line_matches, scan};
use crate::pattern::{CompileError, Pattern, PatternModel};
use crate::text::{is_line_terminator, line_body, lemma_line_body};

verus! {

/// A token that matches exactly one character by a test on it.
pub open spec fn is_single_char_test(tok: PatternModel) -> bool {
    match tok {
        PatternModel::Digit | PatternModel::Alphanumeric | PatternModel::PositiveGroup(_)
        | PatternModel::NegativeGroup(_) | PatternModel::Symbol(_) => true,
        _ => false,
    }
}

/// Some character of `t` at or after `from` passes the test of `tok`.
pub open spec fn found_from(t: Seq<char>, tok: PatternModel, from: int) -> bool {
    exists|j: int| from <= j < t.len() && char_matches(tok, #[trigger] t[j])
}

/// Scanning against a single one-character token looks for a character that
/// passes its test anywhere from the input cursor on.
pub proof fn lemma_scan_single(t: Seq<char>, tok: PatternModel, ci: int, pi: int, qc: nat)
    requires
        is_single_char_test(tok),
        0 <= ci <= t.len(),
        pi == 0 || pi == 1,
    ensures
        scan(t, seq![tok], ci, pi, qc) == (pi == 1 || found_from(t, tok, ci)),
    decreases t.len() - ci,
{
    let ps = seq![tok];
    if ci < t.len() && pi == 0 {
        if char_matches(tok, t[ci]) {
            lemma_scan_single(t, tok, ci + 1, 1, qc);
        } else {
            lemma_scan_single(t, tok, ci + 1, 0, qc);
            if found_from(t, tok, ci) {
                let j = choose|j: int| ci <= j < t.len() && char_matches(tok, #[trigger] t[j]);
                assert(j != ci);
                assert(found_from(t, tok, ci + 1));
            }
        }
    }
}

/// A line matches a single one-character token exactly when some character
/// of the line, terminators left out, passes the token's test.
pub proof fn lemma_line_matches_single(input: Seq<char>, tok: PatternModel)
    requires
        is_single_char_test(tok),
    ensures
        line_matches(input, seq![tok]) == found_from(line_body(input), tok, 0),
{
    lemma_line_body(input);
    lemma_scan_single(line_body(input), tok, 0, 0, 0);
}

/// Where no line terminator passes the test of `tok`, looking in the line
/// body is looking in the whole line.
pub proof fn lemma_found_in_body(input: Seq<char>, tok: PatternModel)
    requires
        forall|c: char| is_line_terminator(c) ==> !char_matches(tok, c),
    ensures
        found_from(line_body(input), tok, 0) == found_from(input, tok, 0),
{
    lemma_line_body(input);
    let b = line_body(input);
    if found_from(input, tok, 0) {
        let j = choose|j: int| 0 <= j < input.len() && char_matches(tok, #[trigger] input[j]);
        assert(j < b.len());
        assert(b[j] == input[j]);
    }
    if found_from(b, tok, 0) {
        let j = choose|j: int| 0 <= j < b.len() && char_matches(tok, #[trigger] b[j]);
        assert(b[j] == input[j]);
    }
}

/// A pattern of one plain character matches exactly the lines that contain
/// that character (terminators at the end of the line are not part of it).
pub proof fn lemma_single_literal(input: Seq<char>, c: char)
    requires
        c != '\\' && c != '[' && c != '^' && c != '$',
    ensures
        compile(seq![c]) == Ok::<Seq<PatternModel>, CompileError>(seq![PatternModel::Symbol(c)]),
        line_matches(input, seq![PatternModel::Symbol(c)]) == line_body(input).contains(c),
        !is_line_terminator(c) ==> (line_matches(input, seq![PatternModel::Symbol(c)])
            == input.contains(c)),
{
    let p = seq![c];
    assert(compile_from(p, 1) == Ok::<Seq<PatternModel>, CompileError>(Seq::empty()));
    assert(seq![PatternModel::Symbol(c)] + Seq::<PatternModel>::empty() =~= seq![
        PatternModel::Symbol(c),
    ]);
    let tok = PatternModel::Symbol(c);
    lemma_line_matches_single(input, tok);
    let b = line_body(input);
    if b.contains(c) {
        let j = choose|j: int| 0 <= j < b.len() && b[j] == c;
        assert(char_matches(tok, b[j]));
    }
    if !is_line_terminator(c) {
        lemma_found_in_body(input, tok);
        if input.contains(c) {
            let j = choose|j: int| 0 <= j < input.len() && input[j] == c;
            assert(char_matches(tok, input[j]));
        }
    }
}

/// `\d` matches exactly the lines that contain a decimal digit.
pub proof fn lemma_digit_class(input: Seq<char>)
    ensures
        compile(seq!['\\', 'd']) == Ok::<Seq<PatternModel>, CompileError>(seq![PatternModel::Digit]),
        line_matches(input, seq![PatternModel::Digit]) == exists|j: int|
            0 <= j < input.len() && is_decimal_digit(#[trigger] input[j]),
{
    let p = seq!['\\', 'd'];
    assert(compile_from(p, 2) == Ok::<Seq<PatternModel>, CompileError>(Seq::empty()));
    assert(seq![PatternModel::Digit] + Seq::<PatternModel>::empty() =~= seq![PatternModel::Digit]);
    lemma_line_matches_single(input, PatternModel::Digit);
    lemma_found_in_body(input, PatternModel::Digit);
}

/// `\w` matches exactly the lines whose body holds an alphanumeric character.
pub proof fn lemma_word_class(input: Seq<char>)
    ensures
        compile(seq!['\\', 'w']) == Ok::<Seq<PatternModel>, CompileError>(
            seq![PatternModel::Alphanumeric],
        ),
        line_matches(input, seq![PatternModel::Alphanumeric]) == exists|j: int|
            0 <= j < line_body(input).len() && alnum_of(#[trigger] line_body(input)[j]),
{
    let p = seq!['\\', 'w'];
    assert(compile_from(p, 2) == Ok::<Seq<PatternModel>, CompileError>(Seq::empty()));
    assert(seq![PatternModel::Alphanumeric] + Seq::<PatternModel>::empty() =~= seq![
        PatternModel::Alphanumeric,
    ]);
    lemma_line_matches_single(input, PatternModel::Alphanumeric);
}

/// One of `a`, `b`, `c`.
pub open spec fn is_abc(c: char) -> bool {
    c == 'a' || c == 'b' || c == 'c'
}

proof fn lemma_abc_group(c: char)
    ensures
        seq!['a', 'b', 'c'].contains(c) == is_abc(c),
{
    let g = seq!['a', 'b', 'c'];
    if is_abc(c) {
        if c == 'a' {
            assert(g[0] == c);
        } else if c == 'b' {
            assert(g[1] == c);
        } else {
            assert(g[2] == c);
        }
    }
}

/// `[abc]` matches exactly the lines that contain `a`, `b` or `c`.
pub proof fn lemma_positive_group(input: Seq<char>)
    ensures
        compile(seq!['[', 'a', 'b', 'c', ']']) == Ok::<Seq<PatternModel>, CompileError>(
            seq![PatternModel::PositiveGroup(seq!['a', 'b', 'c'])],
        ),
        line_matches(input, seq![PatternModel::PositiveGroup(seq!['a', 'b', 'c'])]) == exists|
            j: int,
        |
            0 <= j < input.len() && is_abc(#[trigger] input[j]),
{
    let p = seq!['[', 'a', 'b', 'c', ']'];
    let tok = PatternModel::PositiveGroup(seq!['a', 'b', 'c']);
    assert(close_from(p, 4) == Some(4int));
    assert(close_from(p, 3) == Some(4int));
    assert(close_from(p, 2) == Some(4int));
    assert(close_from(p, 1) == Some(4int));
    assert(p.subrange(1, 4) =~= seq!['a', 'b', 'c']);
    assert(compile_from(p, 5) == Ok::<Seq<PatternModel>, CompileError>(Seq::empty()));
    assert(seq![tok] + Seq::<PatternModel>::empty() =~= seq![tok]);
    assert forall|c: char| #[trigger] char_matches(tok, c) == is_abc(c) by {
        lemma_abc_group(c);
    }
    lemma_line_matches_single(input, tok);
    lemma_found_in_body(input, tok);
}

/// `[^abc]` matches exactly the lines whose body holds a character other
/// than `a`, `b` and `c`.
pub proof fn lemma_negative_group(input: Seq<char>)
    ensures
        compile(seq!['[', '^', 'a', 'b', 'c', ']']) == Ok::<Seq<PatternModel>, CompileError>(
            seq![PatternModel::NegativeGroup(seq!['a', 'b', 'c'])],
        ),
        line_matches(input, seq![PatternModel::NegativeGroup(seq!['a', 'b', 'c'])]) == exists|
            j: int,
        |
            0 <= j < line_body(input).len() && !is_abc(#[trigger] line_body(input)[j]),
{
    let p = seq!['[', '^', 'a', 'b', 'c', ']'];
    let tok = PatternModel::NegativeGroup(seq!['a', 'b', 'c']);
    assert(close_from(p, 5) == Some(5int));
    assert(close_from(p, 4) == Some(5int));
    assert(close_from(p, 3) == Some(5int));
    assert(close_from(p, 2) == Some(5int));
    assert(close_from(p, 1) == Some(5int));
    assert(p.subrange(1, 5).skip(1) =~= seq!['a', 'b', 'c']);
    assert(compile_from(p, 6) == Ok::<Seq<PatternModel>, CompileError>(Seq::empty()));
    assert(seq![tok] + Seq::<PatternModel>::empty() =~= seq![tok]);
    assert forall|c: char| #[trigger] char_matches(tok, c) == !is_abc(c) by {
        lemma_abc_group(c);
    }
    lemma_line_matches_single(input, tok);
}

/// Compiling is deterministic: any two results that `parse_pattern` may give
/// for one pattern have the same tokens, or the same error.
pub proof fn lemma_compile_deterministic(
    pattern: Seq<char>,
    r1: Result<Vec<Pattern>, CompileError>,
    r2: Result<Vec<Pattern>, CompileError>,
)
    requires
        compiled_view(r1) == compile(pattern),
        compiled_view(r2) == compile(pattern),
    ensures
        compiled_view(r1) == compiled_view(r2),
{
}

} // verus!
