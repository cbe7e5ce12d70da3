//! The faults that stop a compilation. Each stage reports the first fault it
//! meets and stops.

use vstd::prelude::*;
use crate::word::Keyword;

verus! {

/// A character that no lexical rule accepts.
#[derive(Clone, Copy, Debug, PartialEq, Eq, Structural)]
pub struct LexError {
    pub character: char,
    /// The index of the character in the source, counted in characters.
    pub position: usize,
}

/// A run of words that is no phrase of the language.
#[derive(Clone, Copy, Debug, PartialEq, Eq, Structural)]
pub enum PhraseError {
    /// An idiom broke off: it needs `particle` at `position`, and another
    /// word, or none, stands there.
    MissingParticle { particle: Keyword, position: usize },
    /// After `o`, `tenpo` or `li`, the word at `position` continues no
    /// idiom (or the words ran out).
    UnknownPhrase { position: usize },
    /// The word at `position` is a particle that only occurs inside an
    /// idiom.
    StrayWord { position: usize },
}

/// A run of tokens that is no program of the language.
#[derive(Clone, Copy, Debug, PartialEq, Eq, Structural)]
pub enum ParseError {
    /// No statement starts with the token at `position` (or the tokens ran
    /// out where a statement was due).
    UnexpectedToken { position: usize },
    /// No expression starts at `position`.
    ExpectedExpression { position: usize },
    /// The token at `position` is not a number.
    ExpectedNumber { position: usize },
    /// The token at `position` is not a name.
    ExpectedName { position: usize },
    /// The token at `position` is not a type.
    ExpectedType { position: usize },
    /// The number at `position` is not written in decimal digits, or does
    /// not fit 64 bits.
    InvalidNumber { position: usize },
    /// The condition of a `tenpo pi` is not followed by `la` at
    /// `position`.
    MissingLa { position: usize },
    /// A call is not closed by `a` at `position`.
    MissingA { position: usize },
    /// The name that starts a statement is not followed by `li kama sama`
    /// at `position`.
    MissingAssignment { position: usize },
    /// A block runs to the end of the tokens, at `position`, without the
    /// token that closes it.
    MissingTerminator { position: usize },
    /// The type before `position` is marked `awen`; constants are not
    /// part of the language yet.
    ConstantType { position: usize },
}

/// A program that parses, but for which no code can be generated.
#[derive(Clone, Copy, Debug, PartialEq, Eq, Structural)]
pub enum SemanticError {
    /// A variable is read or assigned that no scope in reach declares.
    UnknownVariable,
    /// A function is called that is neither defined nor declared.
    UnknownFunction,
    /// A type is used that is not registered.
    UnknownType,
    /// A variable is declared twice in one scope.
    DuplicateVariable,
    /// The types of the arguments of a call are not the types of the
    /// parameters of the function.
    ArgumentMismatch,
    /// The two sides of a binary expression have different types.
    TypeMismatch,
    /// A call is used for its value, and the function returns none.
    NoReturnValue,
    /// A value has a size other than 1, 2, 4 or 8 bytes, for which there
    /// is no size word.
    UnsupportedSize,
    /// More bytes are popped than the current scope has pushed.
    StackUnderflow,
    /// A stack offset or the label counter exceeds what the machine can
    /// count.
    LimitExceeded,
}

/// The first fault of a compilation, with the stage that met it.
#[derive(Clone, Copy, Debug, PartialEq, Eq, Structural)]
pub enum CompileError {
    Lexical(LexError),
    Phrase(PhraseError),
    Parse(ParseError),
    Semantic(SemanticError),
}

impl CompileError {
    /// A short description of the fault.
    pub open spec fn description(self) -> Seq<char> {
        match self {
            CompileError::Lexical(_) => "unexpected character"@,
            CompileError::Phrase(PhraseError::MissingParticle { .. }) => "a phrase is cut short"@,
            CompileError::Phrase(PhraseError::UnknownPhrase { .. }) => "not a valid phrase"@,
            CompileError::Phrase(PhraseError::StrayWord { .. }) => "a particle stands alone"@,
            CompileError::Parse(ParseError::UnexpectedToken { .. }) => "not a statement"@,
            CompileError::Parse(ParseError::ExpectedExpression { .. }) => "not an expression"@,
            CompileError::Parse(ParseError::ExpectedNumber { .. }) => "not a number"@,
            CompileError::Parse(ParseError::ExpectedName { .. }) => "not a name"@,
            CompileError::Parse(ParseError::ExpectedType { .. }) => "not a type"@,
            CompileError::Parse(ParseError::InvalidNumber { .. }) => "not a valid number"@,
            CompileError::Parse(ParseError::MissingLa { .. }) => "no 'la' in 'tenpo pi' statement"@,
            CompileError::Parse(ParseError::MissingA { .. }) => "no 'a' at the end of a call"@,
            CompileError::Parse(ParseError::MissingAssignment { .. }) =>
                "no 'li kama sama' after a name"@,
            CompileError::Parse(ParseError::MissingTerminator { .. }) => "a block is not closed"@,
            CompileError::Parse(ParseError::ConstantType { .. }) => "constants are not supported"@,
            CompileError::Semantic(SemanticError::UnknownVariable) => "no such variable"@,
            CompileError::Semantic(SemanticError::UnknownFunction) => "no such function"@,
            CompileError::Semantic(SemanticError::UnknownType) => "no such type"@,
            CompileError::Semantic(SemanticError::DuplicateVariable) =>
                "the variable is already declared in this scope"@,
            CompileError::Semantic(SemanticError::ArgumentMismatch) =>
                "caller arguments do not match function parameters"@,
            CompileError::Semantic(SemanticError::TypeMismatch) =>
                "expressions have incompatible types"@,
            CompileError::Semantic(SemanticError::NoReturnValue) => "the function returns no value"@,
            CompileError::Semantic(SemanticError::UnsupportedSize) => "unsupported operand size"@,
            CompileError::Semantic(SemanticError::StackUnderflow) => "the stack is out of balance"@,
            CompileError::Semantic(SemanticError::LimitExceeded) => "the program is too large"@,
        }
    }

    /// A short description of the fault, as text.
    pub fn message(&self) -> (r: &'static str)
        ensures
            r@ == self.description(),
    {
        match self {
            CompileError::Lexical(_) => "unexpected character",
            CompileError::Phrase(PhraseError::MissingParticle { .. }) => "a phrase is cut short",
            CompileError::Phrase(PhraseError::UnknownPhrase { .. }) => "not a valid phrase",
            CompileError::Phrase(PhraseError::StrayWord { .. }) => "a particle stands alone",
            CompileError::Parse(ParseError::UnexpectedToken { .. }) => "not a statement",
            CompileError::Parse(ParseError::ExpectedExpression { .. }) => "not an expression",
            CompileError::Parse(ParseError::ExpectedNumber { .. }) => "not a number",
            CompileError::Parse(ParseError::ExpectedName { .. }) => "not a name",
            CompileError::Parse(ParseError::ExpectedType { .. }) => "not a type",
            CompileError::Parse(ParseError::InvalidNumber { .. }) => "not a valid number",
            CompileError::Parse(ParseError::MissingLa { .. }) => "no 'la' in 'tenpo pi' statement",
            CompileError::Parse(ParseError::MissingA { .. }) => "no 'a' at the end of a call",
            CompileError::Parse(ParseError::MissingAssignment { .. }) =>
                "no 'li kama sama' after a name",
            CompileError::Parse(ParseError::MissingTerminator { .. }) => "a block is not closed",
            CompileError::Parse(ParseError::ConstantType { .. }) => "constants are not supported",
            CompileError::Semantic(SemanticError::UnknownVariable) => "no such variable",
            CompileError::Semantic(SemanticError::UnknownFunction) => "no such function",
            CompileError::Semantic(SemanticError::UnknownType) => "no such type",
            CompileError::Semantic(SemanticError::DuplicateVariable) =>
                "the variable is already declared in this scope",
            CompileError::Semantic(SemanticError::ArgumentMismatch) =>
                "caller arguments do not match function parameters",
            CompileError::Semantic(SemanticError::TypeMismatch) =>
                "expressions have incompatible types",
            CompileError::Semantic(SemanticError::NoReturnValue) => "the function returns no value",
            CompileError::Semantic(SemanticError::UnsupportedSize) => "unsupported operand size",
            CompileError::Semantic(SemanticError::StackUnderflow) => "the stack is out of balance",
            CompileError::Semantic(SemanticError::LimitExceeded) => "the program is too large",
        }
    }
}

} // verus!
