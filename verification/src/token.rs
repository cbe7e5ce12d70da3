//! Tokens: the units that the parser reads. A token is a word that stands
//! alone, or a phrase that stands for a fixed run of words.

use vstd::prelude::*;
use crate::word::{Keyword, Symbol};

verus! {

/// The multi-word idioms, each folded into one token.
#[derive(Clone, Copy, Debug, PartialEq, Eq, Structural)]
pub enum Phrase {
    /// `o tawa`: return from the program.
    OTawa,
    /// `o sin e`: declare a variable.
    OSin,
    /// `o weka`: return from a function.
    OWeka,
    /// `o pini`: end a block.
    OPini,
    /// `o` before an identifier: call a function. The identifier is a
    /// token of its own.
    O,
    /// `tenpo pi`: open a conditional.
    TenpoPi,
    /// `tenpo ale pi`: open an unbounded loop.
    TenpoAlePi,
    /// `li kama sama`: assign.
    LiKamaSama,
    /// `li kepeken`: open the parameter list of a function.
    LiKepeken,
    /// `li pali e ni`: open the body of a function.
    LiPaliENi,
    /// `li pana e`: give the return type of a function.
    LiPanaE,
}

/// One unit of parser input.
#[derive(Clone, Debug, PartialEq, Eq)]
pub enum Token {
    Name(String),
    /// A number in decimal.
    Number(String),
    StringLiteral(String),
    OpeningTab(usize),
    /// A keyword that stands alone.
    Keyword(Keyword),
    Symbol(Symbol),
    Phrase(Phrase),
}

/// The mathematical value of a [`Token`].
pub enum TokenView {
    Name(Seq<char>),
    Number(Seq<char>),
    StringLiteral(Seq<char>),
    OpeningTab(nat),
    Keyword(Keyword),
    Symbol(Symbol),
    Phrase(Phrase),
}

impl View for Token {
    type V = TokenView;

    open spec fn view(&self) -> TokenView {
        match self {
            Token::Name(s) => TokenView::Name(s@),
            Token::Number(s) => TokenView::Number(s@),
            Token::StringLiteral(s) => TokenView::StringLiteral(s@),
            Token::OpeningTab(n) => TokenView::OpeningTab(*n as nat),
            Token::Keyword(k) => TokenView::Keyword(*k),
            Token::Symbol(s) => TokenView::Symbol(*s),
            Token::Phrase(p) => TokenView::Phrase(*p),
        }
    }
}

impl TokenView {
    /// Whether two tokens are of the same variant, and for keywords,
    /// symbols and phrases the same one; the text or count they carry is not
    /// compared.
    pub open spec fn same_kind(self, other: TokenView) -> bool {
        match (self, other) {
            (TokenView::Name(_), TokenView::Name(_)) => true,
            (TokenView::Number(_), TokenView::Number(_)) => true,
            (TokenView::StringLiteral(_), TokenView::StringLiteral(_)) => true,
            (TokenView::OpeningTab(_), TokenView::OpeningTab(_)) => true,
            (TokenView::Keyword(a), TokenView::Keyword(b)) => a == b,
            (TokenView::Symbol(a), TokenView::Symbol(b)) => a == b,
            (TokenView::Phrase(a), TokenView::Phrase(b)) => a == b,
            _ => false,
        }
    }
}

impl Token {
    /// Compares the variants of two tokens, and the tags of keywords,
    /// symbols and phrases.
    pub fn same_kind(&self, other: &Token) -> (r: bool)
        ensures
            r == self@.same_kind(other@),
    {
        match (self, other) {
            (Token::Name(_), Token::Name(_)) => true,
            (Token::Number(_), Token::Number(_)) => true,
            (Token::StringLiteral(_), Token::StringLiteral(_)) => true,
            (Token::OpeningTab(_), Token::OpeningTab(_)) => true,
            (Token::Keyword(a), Token::Keyword(b)) => *a == *b,
            (Token::Symbol(a), Token::Symbol(b)) => *a == *b,
            (Token::Phrase(a), Token::Phrase(b)) => *a == *b,
            _ => false,
        }
    }
}

/// The views of a vector of tokens, in order.
pub open spec fn tokens_view(tokens: Seq<Token>) -> Seq<TokenView> {
    Seq::new(tokens.len(), |i: int| tokens[i]@)
}

} // verus!
