use vstd::prelude::*;
use crate::pattern::{Pattern, PatternModel, patterns_view};
use crate::text::{line_body, line_chars};

verus! {

/// Whether `c` is alphanumeric in the sense of `char::is_alphanumeric`.
pub uninterp spec fn alnum_of(c: char) -> bool;

/// Relies on `char::is_alphanumeric`: alphabetic or numeric, a property of the
/// character alone.
#[verifier::external_body]
fn is_alphanumeric(c: char) -> (r: bool)
    ensures
        r == alnum_of(c),
{
    c.is_alphanumeric()
}

/// A decimal digit, `0` to `9`.
pub open spec fn is_decimal_digit(c: char) -> bool {
    '0' <= c <= '9'
}

/// Whether a token that matches exactly one character matches `c`. Anchors
/// and the repeat never match here: the scan treats them apart.
pub open spec fn char_matches(tok: PatternModel, c: char) -> bool {
    match tok {
        PatternModel::Digit => is_decimal_digit(c),
        PatternModel::Alphanumeric => alnum_of(c),
        PatternModel::PositiveGroup(g) => g.contains(c),
        PatternModel::NegativeGroup(g) => !g.contains(c),
        PatternModel::Symbol(x) => c == x,
        _ => false,
    }
}

/// Whether the scan succeeds once the input is used up with the token
/// cursor at `pi`: every token was consumed, or only a final end anchor is
/// left.
pub open spec fn accepts_at_end(ps: Seq<PatternModel>, pi: int) -> bool {
    pi == ps.len() || (ps.len() - pi == 1 && ps.last() is EndAnchor)
}

/// The outcome of the scan of `t` against `ps` from the state with input
/// cursor `ci`, token cursor `pi` and repeat count `qc`.
pub open spec fn scan(t: Seq<char>, ps: Seq<PatternModel>, ci: int, pi: int, qc: nat) -> bool
    decreases t.len() - ci, ps.len() - pi,
{
    if ci < 0 || pi < 0 {
        false
    } else if ci >= t.len() {
        accepts_at_end(ps, pi)
    } else if pi >= ps.len() {
        true
    } else {
        match ps[pi] {
            PatternModel::OneOrMore(x) => {
                if t[ci] == x {
                    scan(t, ps, ci + 1, pi, qc + 1)
                } else if qc >= 1 {
                    scan(t, ps, ci, pi + 1, qc)
                } else {
                    scan(t, ps, ci + 1, 0, qc)
                }
            },
            PatternModel::StartAnchor => false,
            tok => {
                if char_matches(tok, t[ci]) {
                    scan(t, ps, ci + 1, pi + 1, qc)
                } else {
                    scan(t, ps, ci + 1, 0, qc)
                }
            },
        }
    }
}

/// Where the token cursor starts: past a leading start anchor.
pub open spec fn first_token(ps: Seq<PatternModel>) -> int {
    if ps.len() > 0 && ps[0] is StartAnchor {
        1
    } else {
        0
    }
}

/// Whether the line `input` matches the tokens `ps`.
pub open spec fn line_matches(input: Seq<char>, ps: Seq<PatternModel>) -> bool {
    scan(line_body(input), ps, 0, first_token(ps), 0)
}

fn group_contains(g: &Vec<char>, c: char) -> (r: bool)
    ensures
        r == g@.contains(c),
{
    let mut i: usize = 0;
    while i < g.len()
        invariant
            i <= g@.len(),
            forall|j: int| 0 <= j < i ==> g@[j] != c,
        decreases g.len() - i,
    {
        if g[i] == c {
            return true;
        }
        i = i + 1;
    }
    false
}

/// Whether `tok` matches the single character `c`.
fn token_matches(tok: &Pattern, c: char) -> (r: bool)
    ensures
        r == char_matches(tok@, c),
{
    match tok {
        Pattern::Digit => '0' <= c && c <= '9',
        Pattern::Alphanumeric => is_alphanumeric(c),
        Pattern::PositiveGroup(g) => group_contains(g, c),
        Pattern::NegativeGroup(g) => !group_contains(g, c),
        Pattern::Symbol(x) => c == *x,
        _ => false,
    }
}

/// Scans `input_line`, without its trailing line terminators, against the
/// compiled `patterns` in one forward pass: on a mismatch the token cursor
/// goes back to the first token and the scan goes on with the next character.
pub fn match_pattern(input_line: &str, patterns: &Vec<Pattern>) -> (r: bool)
    requires
        patterns@.len() > 0,
    ensures
        r == line_matches(input_line@, patterns_view(patterns@)),
{
    let ghost ps = patterns_view(patterns@);
    let chars = line_chars(input_line);
    let n = chars.len();
    let m = patterns.len();
    let mut ci: usize = 0;
    let mut pi: usize = match &patterns[0] {
        Pattern::StartAnchor => 1,
        _ => 0,
    };
    let mut qc: usize = 0;
    while ci < n
        invariant
            ps == patterns_view(patterns@),
            chars@ == line_body(input_line@),
            n == chars@.len(),
            m == patterns@.len(),
            m > 0,
            ci <= n,
            pi <= m,
            qc <= ci,
            scan(chars@, ps, ci as int, pi as int, qc as nat) == line_matches(input_line@, ps),
        decreases n - ci, m - pi,
    {
        if pi >= m {
            return true;
        }
        let c = chars[ci];
        match &patterns[pi] {
            Pattern::OneOrMore(x) => {
                if c == *x {
                    qc = qc + 1;
                    ci = ci + 1;
                } else if qc >= 1 {
                    pi = pi + 1;
                } else {
                    pi = 0;
                    ci = ci + 1;
                }
            },
            Pattern::StartAnchor => {
                return false;
            },
            tok => {
                if token_matches(tok, c) {
                    pi = pi + 1;
                } else {
                    pi = 0;
                }
                ci = ci + 1;
            },
        }
    }
    if pi == m {
        true
    } else if m - pi == 1 {
        match &patterns[m - 1] {
            Pattern::EndAnchor => true,
            _ => false,
        }
    } else {
        false
    }
}

} // verus!
