use vstd::prelude::*;
use crate::pattern::{CompileError, Pattern, PatternModel, patterns_view};
use crate::text::chars_of;

verus! {

/// The position of the first `]` at or after `j` in `p`, if there is one.
pub open spec fn close_from(p: Seq<char>, j: int) -> Option<int>
    decreases p.len() - j,
{
    if j < 0 || j >= p.len() {
        None
    } else if p[j] == ']' {
        Some(j)
    } else {
        close_from(p, j + 1)
    }
}

/// The class that an escape `\e` stands for: `\d` is a digit, any other
/// escaped character an alphanumeric.
pub open spec fn escape_class(e: char) -> PatternModel {
    if e == 'd' {
        PatternModel::Digit
    } else {
        PatternModel::Alphanumeric
    }
}

/// The group written with `body` between its brackets: negative when the
/// body starts with `^`, which is then not a member.
pub open spec fn group_of(body: Seq<char>) -> PatternModel {
    if body.len() > 0 && body[0] == '^' {
        PatternModel::NegativeGroup(body.skip(1))
    } else {
        PatternModel::PositiveGroup(body)
    }
}

/// `r` with the tokens `t` put in front, when `r` is a success.
pub open spec fn prepend_ok(
    t: Seq<PatternModel>,
    r: Result<Seq<PatternModel>, CompileError>,
) -> Result<Seq<PatternModel>, CompileError> {
    match r {
        Ok(s) => Ok(t + s),
        Err(e) => Err(e),
    }
}

/// The tokens of the pattern `p` read from position `i` on.
pub open spec fn compile_from(p: Seq<char>, i: int) -> Result<Seq<PatternModel>, CompileError>
    decreases p.len() - i,
    via compile_from_decreases
{
    if i < 0 || i >= p.len() {
        Ok(Seq::empty())
    } else if p[i] == '\\' {
        if i + 1 < p.len() {
            prepend_ok(seq![escape_class(p[i + 1])], compile_from(p, i + 2))
        } else {
            Err(CompileError::MalformedPattern)
        }
    } else if p[i] == '[' {
        match close_from(p, i + 1) {
            Some(j) => prepend_ok(seq![group_of(p.subrange(i + 1, j))], compile_from(p, j + 1)),
            None => Err(CompileError::MalformedPattern),
        }
    } else if p[i] == '^' {
        prepend_ok(seq![PatternModel::StartAnchor], compile_from(p, i + 1))
    } else if p[i] == '$' {
        prepend_ok(seq![PatternModel::EndAnchor], compile_from(p, i + 1))
    } else if i + 1 < p.len() && p[i + 1] == '+' {
        prepend_ok(seq![PatternModel::OneOrMore(p[i])], compile_from(p, i + 2))
    } else {
        prepend_ok(seq![PatternModel::Symbol(p[i])], compile_from(p, i + 1))
    }
}

#[via_fn]
proof fn compile_from_decreases(p: Seq<char>, i: int) {
    if 0 <= i < p.len() && p[i] == '[' {
        lemma_close_from(p, i + 1);
    }
}

/// What `close_from` finds: the first `]` at or after `j`.
pub proof fn lemma_close_from(p: Seq<char>, j: int)
    requires
        0 <= j,
    ensures
        match close_from(p, j) {
            Some(k) => j <= k < p.len() && p[k] == ']' && forall|m: int|
                j <= m < k ==> p[m] != ']',
            None => forall|m: int| j <= m < p.len() ==> p[m] != ']',
        },
    decreases p.len() - j,
{
    if j < p.len() && p[j] != ']' {
        lemma_close_from(p, j + 1);
    }
}

/// The tokens of the pattern `p`, or the error that rejects it.
pub open spec fn compile(p: Seq<char>) -> Result<Seq<PatternModel>, CompileError> {
    compile_from(p, 0)
}

proof fn lemma_prepend_twice(
    a: Seq<PatternModel>,
    b: Seq<PatternModel>,
    r: Result<Seq<PatternModel>, CompileError>,
)
    ensures
        prepend_ok(a, prepend_ok(b, r)) == prepend_ok(a + b, r),
{
    if let Ok(s) = r {
        assert(a + (b + s) =~= (a + b) + s);
    }
}

/// The characters of `chars` from `from` up to, not including, `to`.
fn chars_between(chars: &Vec<char>, from: usize, to: usize) -> (r: Vec<char>)
    requires
        from <= to <= chars@.len(),
    ensures
        r@ == chars@.subrange(from as int, to as int),
{
    let mut r: Vec<char> = Vec::new();
    let mut k: usize = from;
    while k < to
        invariant
            from <= k <= to <= chars@.len(),
            r@ =~= chars@.subrange(from as int, k as int),
        decreases to - k,
    {
        r.push(chars[k]);
        k = k + 1;
    }
    r
}

/// Reads the token that starts at `pos` in `chars`, and the position after it.
fn next_token(chars: &Vec<char>, pos: usize) -> (r: Result<(Pattern, usize), CompileError>)
    requires
        pos < chars@.len(),
    ensures
        match r {
            Ok((tok, next)) => pos < next <= chars@.len() && compile_from(chars@, pos as int)
                == prepend_ok(seq![tok@], compile_from(chars@, next as int)),
            Err(e) => compile_from(chars@, pos as int) == Err::<Seq<PatternModel>, CompileError>(
                e,
            ),
        },
{
    let ghost p = chars@;
    let n = chars.len();
    let c = chars[pos];
    if c == '\\' {
        if pos + 1 < n {
            let tok = if chars[pos + 1] == 'd' {
                Pattern::Digit
            } else {
                Pattern::Alphanumeric
            };
            Ok((tok, pos + 2))
        } else {
            Err(CompileError::MalformedPattern)
        }
    } else if c == '[' {
        let mut close: usize = pos + 1;
        while close < n && chars[close] != ']'
            invariant
                p == chars@,
                n == p.len(),
                pos < close <= n,
                close_from(p, pos + 1) == close_from(p, close as int),
            decreases n - close,
        {
            close = close + 1;
        }
        if close == n {
            return Err(CompileError::MalformedPattern);
        }
        let negative = pos + 1 < close && chars[pos + 1] == '^';
        let from: usize = if negative {
            pos + 2
        } else {
            pos + 1
        };
        let body = chars_between(chars, from, close);
        proof {
            if negative {
                assert(p.subrange(pos + 1, close as int).skip(1) =~= body@);
            } else {
                assert(p.subrange(pos + 1, close as int) =~= body@);
            }
        }
        let tok = if negative {
            Pattern::NegativeGroup(body)
        } else {
            Pattern::PositiveGroup(body)
        };
        Ok((tok, close + 1))
    } else if c == '^' {
        Ok((Pattern::StartAnchor, pos + 1))
    } else if c == '$' {
        Ok((Pattern::EndAnchor, pos + 1))
    } else if pos + 1 < n && chars[pos + 1] == '+' {
        Ok((Pattern::OneOrMore(c), pos + 2))
    } else {
        Ok((Pattern::Symbol(c), pos + 1))
    }
}

/// The model of what `parse_pattern` returns.
pub open spec fn compiled_view(r: Result<Vec<Pattern>, CompileError>) -> Result<
    Seq<PatternModel>,
    CompileError,
> {
    match r {
        Ok(v) => Ok(patterns_view(v@)),
        Err(e) => Err(e),
    }
}

/// Compiles `pattern` into its tokens, left to right. Fails with
/// `MalformedPattern` on an escape with nothing after it, and on a `[` with no
/// `]` after it.
pub fn parse_pattern(pattern: &str) -> (r: Result<Vec<Pattern>, CompileError>)
    ensures
        compiled_view(r) == compile(pattern@),
{
    let chars = chars_of(pattern);
    let n = chars.len();
    let mut out: Vec<Pattern> = Vec::new();
    let mut pos: usize = 0;
    while pos < n
        invariant
            chars@ == pattern@,
            n == chars@.len(),
            pos <= n,
            prepend_ok(patterns_view(out@), compile_from(chars@, pos as int)) == compile(chars@),
        decreases n - pos,
    {
        match next_token(&chars, pos) {
            Ok((tok, next)) => {
                proof {
                    lemma_prepend_twice(
                        patterns_view(out@),
                        seq![tok@],
                        compile_from(chars@, next as int),
                    );
                    assert(patterns_view(out@.push(tok)) =~= patterns_view(out@) + seq![tok@]);
                }
                out.push(tok);
                pos = next;
            },
            Err(e) => {
                return Err(e);
            },
        }
    }
    proof {
        assert(patterns_view(out@) + Seq::<PatternModel>::empty() =~= patterns_view(out@));
    }
    Ok(out)
}

} // verus!
