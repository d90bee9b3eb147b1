//! Errors raised while lowering a program to Koopa IR.
use vstd::prelude::*;

verus! {

/// Why a program could not be lowered to Koopa IR. Names in the payloads
/// are spelled as in Koopa, with a leading `@`.
#[allow(inconsistent_fields)]
#[derive(Debug, PartialEq, Eq)]
pub enum IRBuilderErr {
    UndefinedSymbol(String),
    NonConstSymbol(String),
    AssignToConst(String),
    DuplicateSymbol(String),
    ConflictingFunctionDeclaration(String),
    NoScope,
    EmptyLoopStack(String),
    InvalidLVal(String),
    ExpectedValue,
    NotAFunction(String),
    ArgumentCountMismatch { function: String, expected: usize, actual: usize },
    ArgumentTypeMismatch { function: String, index: usize, expected: String, actual: String },
    UnexpectedReturnValue,
    MissingReturnValue,
    MissingFunctionReturn(String),
    NoCurrentFunction,
    InvalidArrayLength(i32),
    ArraySizeOverflow,
    TooManyInitializers(String),
    InvalidInitializer(String),
    ExpectedScalarLVal(String),
    /// A constant expression divides by zero or divides `i32::MIN` by `-1`.
    InvalidConstDivision,
    /// A counter for fresh names reached `usize::MAX`.
    TooManyNames,
}

/// An error with its strings seen as character sequences.
#[allow(inconsistent_fields)]
pub enum ErrView {
    UndefinedSymbol(Seq<char>),
    NonConstSymbol(Seq<char>),
    AssignToConst(Seq<char>),
    DuplicateSymbol(Seq<char>),
    ConflictingFunctionDeclaration(Seq<char>),
    NoScope,
    EmptyLoopStack(Seq<char>),
    InvalidLVal(Seq<char>),
    ExpectedValue,
    NotAFunction(Seq<char>),
    ArgumentCountMismatch { function: Seq<char>, expected: usize, actual: usize },
    ArgumentTypeMismatch { function: Seq<char>, index: usize, expected: Seq<char>, actual: Seq<char> },
    UnexpectedReturnValue,
    MissingReturnValue,
    MissingFunctionReturn(Seq<char>),
    NoCurrentFunction,
    InvalidArrayLength(i32),
    ArraySizeOverflow,
    TooManyInitializers(Seq<char>),
    InvalidInitializer(Seq<char>),
    ExpectedScalarLVal(Seq<char>),
    InvalidConstDivision,
    TooManyNames,
}

impl View for IRBuilderErr {
    type V = ErrView;

    open spec fn view(&self) -> ErrView {
        match self {
            IRBuilderErr::UndefinedSymbol(s) => ErrView::UndefinedSymbol(s@),
            IRBuilderErr::NonConstSymbol(s) => ErrView::NonConstSymbol(s@),
            IRBuilderErr::AssignToConst(s) => ErrView::AssignToConst(s@),
            IRBuilderErr::DuplicateSymbol(s) => ErrView::DuplicateSymbol(s@),
            IRBuilderErr::ConflictingFunctionDeclaration(s) => ErrView::ConflictingFunctionDeclaration(s@),
            IRBuilderErr::NoScope => ErrView::NoScope,
            IRBuilderErr::EmptyLoopStack(s) => ErrView::EmptyLoopStack(s@),
            IRBuilderErr::InvalidLVal(s) => ErrView::InvalidLVal(s@),
            IRBuilderErr::ExpectedValue => ErrView::ExpectedValue,
            IRBuilderErr::NotAFunction(s) => ErrView::NotAFunction(s@),
            IRBuilderErr::ArgumentCountMismatch { function, expected, actual } =>
                ErrView::ArgumentCountMismatch { function: function@, expected: *expected, actual: *actual },
            IRBuilderErr::ArgumentTypeMismatch { function, index, expected, actual } =>
                ErrView::ArgumentTypeMismatch { function: function@, index: *index, expected: expected@, actual: actual@ },
            IRBuilderErr::UnexpectedReturnValue => ErrView::UnexpectedReturnValue,
            IRBuilderErr::MissingReturnValue => ErrView::MissingReturnValue,
            IRBuilderErr::MissingFunctionReturn(s) => ErrView::MissingFunctionReturn(s@),
            IRBuilderErr::NoCurrentFunction => ErrView::NoCurrentFunction,
            IRBuilderErr::InvalidArrayLength(n) => ErrView::InvalidArrayLength(*n),
            IRBuilderErr::ArraySizeOverflow => ErrView::ArraySizeOverflow,
            IRBuilderErr::TooManyInitializers(s) => ErrView::TooManyInitializers(s@),
            IRBuilderErr::InvalidInitializer(s) => ErrView::InvalidInitializer(s@),
            IRBuilderErr::ExpectedScalarLVal(s) => ErrView::ExpectedScalarLVal(s@),
            IRBuilderErr::InvalidConstDivision => ErrView::InvalidConstDivision,
            IRBuilderErr::TooManyNames => ErrView::TooManyNames,
        }
    }
}

/// The Koopa spelling `@name` of a source name.
pub open spec fn at_name(name: Seq<char>) -> Seq<char> {
    "@"@ + name
}

/// `@name` for the source name `name`.
pub fn at_name_string(name: &String) -> (s: String)
    ensures
        s@ == at_name(name@),
{
    let mut s = String::from_str("@");
    s.append(name.as_str());
    proof {
        reveal_strlit("@");
    }
    s
}

} // verus!
