//! Words: the atoms that the lexer cuts the source text into.

use vstd::prelude::*;

verus! {

/// The reserved vocabulary of the language.
#[derive(Clone, Copy, Debug, PartialEq, Eq, Structural)]
pub enum Keyword {
    A,
    Ale,
    Awen,
    E,
    En,
    Kama,
    Kepeken,
    La,
    Li,
    Linja,
    Luka,
    Nanpa,
    Ni,
    O,
    Pali,
    Pana,
    Pi,
    Pini,
    Sama,
    Sin,
    Tawa,
    Tenpo,
    Tu,
    Wan,
    Weka,
}

impl Keyword {
    /// Whether the keyword stands alone as a token. The others only occur
    /// inside an idiom, or as a unit numeral.
    pub open spec fn stands_alone(self) -> bool {
        match self {
            Keyword::E
            | Keyword::En
            | Keyword::La
            | Keyword::Pali
            | Keyword::Nanpa
            | Keyword::Linja
            | Keyword::Awen
            | Keyword::Kepeken
            | Keyword::A => true,
            _ => false,
        }
    }
}

/// The single-character punctuation and operator marks.
#[derive(Clone, Copy, Debug, PartialEq, Eq, Structural)]
pub enum Symbol {
    Semicolon,
    OpenParenthesis,
    CloseParenthesis,
    Comma,
    Colon,
    Equals,
    LessThan,
    GreaterThan,
    Plus,
    Minus,
    Star,
    Period,
    ForwardSlash,
}

/// One atom of source text.
#[derive(Clone, Debug, PartialEq, Eq)]
pub enum Word {
    /// An identifier that is not a keyword.
    Name(String),
    /// A run of letters and digits that starts with a digit.
    Number(String),
    /// The text between two double quotes.
    StringLiteral(String),
    /// The tabs that open a line, with their count.
    OpeningTab(usize),
    Keyword(Keyword),
    Symbol(Symbol),
}

/// The mathematical value of a [`Word`]: text is a sequence of characters.
pub enum WordView {
    Name(Seq<char>),
    Number(Seq<char>),
    StringLiteral(Seq<char>),
    OpeningTab(nat),
    Keyword(Keyword),
    Symbol(Symbol),
}

impl View for Word {
    type V = WordView;

    open spec fn view(&self) -> WordView {
        match self {
            Word::Name(s) => WordView::Name(s@),
            Word::Number(s) => WordView::Number(s@),
            Word::StringLiteral(s) => WordView::StringLiteral(s@),
            Word::OpeningTab(n) => WordView::OpeningTab(*n as nat),
            Word::Keyword(k) => WordView::Keyword(*k),
            Word::Symbol(s) => WordView::Symbol(*s),
        }
    }
}

impl WordView {
    /// Whether two words are of the same variant, and for keywords and
    /// symbols the same one; the text or count they carry is not compared.
    pub open spec fn same_kind(self, other: WordView) -> bool {
        match (self, other) {
            (WordView::Name(_), WordView::Name(_)) => true,
            (WordView::Number(_), WordView::Number(_)) => true,
            (WordView::StringLiteral(_), WordView::StringLiteral(_)) => true,
            (WordView::OpeningTab(_), WordView::OpeningTab(_)) => true,
            (WordView::Keyword(a), WordView::Keyword(b)) => a == b,
            (WordView::Symbol(a), WordView::Symbol(b)) => a == b,
            _ => false,
        }
    }

    /// The weight of a unit numeral: 1 for `wan`, 2 for `tu`, 5 for `luka`.
    pub open spec fn numeral_weight(self) -> Option<nat> {
        match self {
            WordView::Keyword(Keyword::Wan) => Some(1),
            WordView::Keyword(Keyword::Tu) => Some(2),
            WordView::Keyword(Keyword::Luka) => Some(5),
            _ => None,
        }
    }
}

impl Word {
    /// Compares the variants of two words, and the tags of keywords and
    /// symbols.
    pub fn same_kind(&self, other: &Word) -> (r: bool)
        ensures
            r == self@.same_kind(other@),
    {
        match (self, other) {
            (Word::Name(_), Word::Name(_)) => true,
            (Word::Number(_), Word::Number(_)) => true,
            (Word::StringLiteral(_), Word::StringLiteral(_)) => true,
            (Word::OpeningTab(_), Word::OpeningTab(_)) => true,
            (Word::Keyword(a), Word::Keyword(b)) => *a == *b,
            (Word::Symbol(a), Word::Symbol(b)) => *a == *b,
            _ => false,
        }
    }
}

/// The views of a vector of words, in order.
pub open spec fn words_view(words: Seq<Word>) -> Seq<WordView> {
    Seq::new(words.len(), |i: int| words[i]@)
}

} // verus!
