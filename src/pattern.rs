use vstd::prelude::*;

verus! {

/// One compiled unit of a pattern. A compiled pattern is a flat sequence of
/// these, in pattern order, which is also the order in which they are matched.
#[derive(Debug, Clone, PartialEq, Eq)]
pub enum Pattern {
    /// One decimal digit.
    Digit,
    /// One alphanumeric (word) character.
    Alphanumeric,
    /// One character that is a member of the group.
    PositiveGroup(Vec<char>),
    /// One character that is not a member of the group.
    NegativeGroup(Vec<char>),
    /// One or more consecutive occurrences of the character.
    OneOrMore(char),
    /// Exactly the character.
    Symbol(char),
    /// The match begins at the start of the line.
    StartAnchor,
    /// The match ends at the end of the line.
    EndAnchor,
}

/// The mathematical value of a `Pattern`: group bodies as sequences.
pub enum PatternModel {
    Digit,
    Alphanumeric,
    PositiveGroup(Seq<char>),
    NegativeGroup(Seq<char>),
    OneOrMore(char),
    Symbol(char),
    StartAnchor,
    EndAnchor,
}

impl View for Pattern {
    type V = PatternModel;

    open spec fn view(&self) -> PatternModel {
        match self {
            Pattern::Digit => PatternModel::Digit,
            Pattern::Alphanumeric => PatternModel::Alphanumeric,
            Pattern::PositiveGroup(g) => PatternModel::PositiveGroup(g@),
            Pattern::NegativeGroup(g) => PatternModel::NegativeGroup(g@),
            Pattern::OneOrMore(c) => PatternModel::OneOrMore(*c),
            Pattern::Symbol(c) => PatternModel::Symbol(*c),
            Pattern::StartAnchor => PatternModel::StartAnchor,
            Pattern::EndAnchor => PatternModel::EndAnchor,
        }
    }
}

/// The model of a compiled pattern.
pub open spec fn patterns_view(ps: Seq<Pattern>) -> Seq<PatternModel> {
    ps.map_values(|p: Pattern| p@)
}

/// Why a pattern string could not be compiled.
#[derive(Debug, Clone, Copy, PartialEq, Eq, Structural)]
pub enum CompileError {
    /// An escape with no character after it, or a group that is never closed.
    MalformedPattern,
}

} // verus!
