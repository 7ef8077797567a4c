use vstd::prelude::*;

verus! {

broadcast use vstd::string::group_string_axioms;

/// The characters of `s`, in order.
pub fn chars_of(s: &str) -> (r: Vec<char>)
    ensures
        r@ == s@,
{
    let mut out: Vec<char> = Vec::new();
    for c in it: s.chars()
        invariant
            it.seq() == s@,
            out@ == it.seq().take(it.index() as int),
    {
        out.push(c);
    }
    assert(out@ =~= s@);
    out
}

/// A character that ends a line.
pub open spec fn is_line_terminator(c: char) -> bool {
    c == '\n' || c == '\r'
}

/// The line `s` without the line terminators at its end.
pub open spec fn line_body(s: Seq<char>) -> Seq<char>
    decreases s.len(),
{
    if s.len() > 0 && is_line_terminator(s.last()) {
        line_body(s.drop_last())
    } else {
        s
    }
}

/// The body is a prefix of the line, and what follows it is all terminators.
pub proof fn lemma_line_body(s: Seq<char>)
    ensures
        line_body(s).len() <= s.len(),
        line_body(s) == s.subrange(0, line_body(s).len() as int),
        forall|i: int| line_body(s).len() <= i < s.len() ==> is_line_terminator(#[trigger] s[i]),
        line_body(s).len() > 0 ==> !is_line_terminator(line_body(s).last()),
    decreases s.len(),
{
    if s.len() > 0 && is_line_terminator(s.last()) {
        lemma_line_body(s.drop_last());
        assert forall|i: int| line_body(s).len() <= i < s.len() implies is_line_terminator(
            #[trigger] s[i],
        ) by {
            if i < s.len() - 1 {
                assert(s[i] == s.drop_last()[i]);
            }
        }
    } else {
        assert(s == s.subrange(0, s.len() as int));
    }
}

/// The characters of `line`, without the line terminators at its end.
pub fn line_chars(line: &str) -> (r: Vec<char>)
    ensures
        r@ == line_body(line@),
{
    let mut chars = chars_of(line);
    let mut end: usize = chars.len();
    assert(line@.subrange(0, end as int) =~= line@);
    while end > 0 && (chars[end - 1] == '\n' || chars[end - 1] == '\r')
        invariant
            chars@ == line@,
            end <= chars@.len(),
            line_body(line@) == line_body(line@.subrange(0, end as int)),
        decreases end,
    {
        assert(line@.subrange(0, end as int).drop_last() =~= line@.subrange(0, end - 1));
        end = end - 1;
    }
    chars.truncate(end);
    assert(chars@ =~= line@.subrange(0, end as int));
    chars
}

} // verus!
