//! The lexer: source text to words, in one pass over the characters.

use vstd::prelude::*;
use vstd::string::*;
use crate::error::LexError;
use crate::text::{chars_of, range_is};
use crate::word::{Keyword, Symbol, Word, WordView, words_view};

verus! {

/// An ASCII letter.
pub open spec fn is_alphabetic(c: char) -> bool {
    ('a' <= c && c <= 'z') || ('A' <= c && c <= 'Z')
}

/// A decimal digit.
pub open spec fn is_digit(c: char) -> bool {
    '0' <= c && c <= '9'
}

/// An ASCII letter or a decimal digit.
pub open spec fn is_alphanumeric(c: char) -> bool {
    is_alphabetic(c) || is_digit(c)
}

/// Space, tab, line feed, vertical tab, form feed or carriage return.
pub open spec fn is_whitespace(c: char) -> bool {
    c == ' ' || ('\t' <= c && c <= '\r')
}

/// The punctuation mark that a character stands for, if any.
pub open spec fn symbol_of(c: char) -> Option<Symbol> {
    if c == ';' {
        Some(Symbol::Semicolon)
    } else if c == '(' {
        Some(Symbol::OpenParenthesis)
    } else if c == ')' {
        Some(Symbol::CloseParenthesis)
    } else if c == ',' {
        Some(Symbol::Comma)
    } else if c == ':' {
        Some(Symbol::Colon)
    } else if c == '=' {
        Some(Symbol::Equals)
    } else if c == '<' {
        Some(Symbol::LessThan)
    } else if c == '>' {
        Some(Symbol::GreaterThan)
    } else if c == '+' {
        Some(Symbol::Plus)
    } else if c == '-' {
        Some(Symbol::Minus)
    } else if c == '*' {
        Some(Symbol::Star)
    } else if c == '.' {
        Some(Symbol::Period)
    } else if c == '/' {
        Some(Symbol::ForwardSlash)
    } else {
        None
    }
}

/// The keyword that a name spells, if it is one of the reserved words.
pub open spec fn keyword_of(name: Seq<char>) -> Option<Keyword> {
    if name == "a"@ {
        Some(Keyword::A)
    } else if name == "ale"@ {
        Some(Keyword::Ale)
    } else if name == "awen"@ {
        Some(Keyword::Awen)
    } else if name == "e"@ {
        Some(Keyword::E)
    } else if name == "en"@ {
        Some(Keyword::En)
    } else if name == "kama"@ {
        Some(Keyword::Kama)
    } else if name == "kepeken"@ {
        Some(Keyword::Kepeken)
    } else if name == "la"@ {
        Some(Keyword::La)
    } else if name == "li"@ {
        Some(Keyword::Li)
    } else if name == "linja"@ {
        Some(Keyword::Linja)
    } else if name == "luka"@ {
        Some(Keyword::Luka)
    } else if name == "nanpa"@ {
        Some(Keyword::Nanpa)
    } else if name == "ni"@ {
        Some(Keyword::Ni)
    } else if name == "o"@ {
        Some(Keyword::O)
    } else if name == "pali"@ {
        Some(Keyword::Pali)
    } else if name == "pana"@ {
        Some(Keyword::Pana)
    } else if name == "pi"@ {
        Some(Keyword::Pi)
    } else if name == "pini"@ {
        Some(Keyword::Pini)
    } else if name == "sama"@ {
        Some(Keyword::Sama)
    } else if name == "sin"@ {
        Some(Keyword::Sin)
    } else if name == "tawa"@ {
        Some(Keyword::Tawa)
    } else if name == "tenpo"@ {
        Some(Keyword::Tenpo)
    } else if name == "tu"@ {
        Some(Keyword::Tu)
    } else if name == "wan"@ {
        Some(Keyword::Wan)
    } else if name == "weka"@ {
        Some(Keyword::Weka)
    } else {
        None
    }
}

/// The word for a run of name characters: its keyword, or an identifier
/// that carries the text.
pub open spec fn name_word(name: Seq<char>) -> WordView {
    match keyword_of(name) {
        Some(k) => WordView::Keyword(k),
        None => WordView::Name(name),
    }
}

/// The classes of characters that the lexer consumes in runs.
#[derive(Clone, Copy, Debug, PartialEq, Eq, Structural)]
pub enum Run {
    /// Letters, digits and underscores: the body of a name.
    Name,
    /// Letters and digits: the body of a number.
    Alphanumeric,
    /// Everything but a double quote: the body of a string literal.
    Quoted,
    /// Tabs.
    Tabs,
}

impl Run {
    /// Whether a character belongs to this class.
    pub open spec fn admits(self, c: char) -> bool {
        match self {
            Run::Name => is_alphanumeric(c) || c == '_',
            Run::Alphanumeric => is_alphanumeric(c),
            Run::Quoted => c != '"',
            Run::Tabs => c == '\t',
        }
    }

    /// Tests a character against this class.
    pub fn accepts(&self, c: char) -> (r: bool)
        ensures
            r == self.admits(c),
    {
        match self {
            Run::Name => is_alphanumeric_char(c) || c == '_',
            Run::Alphanumeric => is_alphanumeric_char(c),
            Run::Quoted => c != '"',
            Run::Tabs => c == '\t',
        }
    }
}

/// The number of characters of `s` from `pos` on.
pub open spec fn remaining(s: Seq<char>, pos: int) -> nat {
    if 0 <= pos < s.len() {
        (s.len() - pos) as nat
    } else {
        0
    }
}

/// The length of the longest run of characters of class `run` that starts
/// at `pos`.
pub open spec fn run_len(s: Seq<char>, pos: int, run: Run) -> nat
    decreases remaining(s, pos),
{
    if 0 <= pos < s.len() && run.admits(s[pos]) {
        1 + run_len(s, pos + 1, run)
    } else {
        0
    }
}

/// Puts one word in front of the words of a result.
pub open spec fn prepend(word: WordView, rest: Result<Seq<WordView>, LexError>) -> Result<
    Seq<WordView>,
    LexError,
> {
    match rest {
        Ok(words) => Ok(seq![word] + words),
        Err(e) => Err(e),
    }
}

/// The words of `s` from position `pos` on, or the first character that no
/// rule accepts. `line_start` says whether only tabs have been seen since the
/// last line feed.
///
/// At each position the first rule that applies is taken:
/// a letter or underscore starts a name, which runs over letters, digits and
/// underscores and is a keyword or an identifier; a digit starts a number,
/// which runs over letters and digits; a double quote starts a string
/// literal, which runs up to the next double quote or the end, and the
/// closing quote is skipped; a line feed starts a new line; a tab at the
/// start of a line starts a run of tabs, which gives one leading-tab word;
/// other whitespace is skipped; any other character must be a punctuation
/// mark.
pub open spec fn lex_from(s: Seq<char>, pos: int, line_start: bool) -> Result<
    Seq<WordView>,
    LexError,
>
    decreases remaining(s, pos),
{
    if pos < 0 || pos >= s.len() {
        Ok(Seq::empty())
    } else {
        let c = s[pos];
        if is_alphabetic(c) || c == '_' {
            let end = pos + 1 + run_len(s, pos + 1, Run::Name);
            prepend(name_word(s.subrange(pos, end)), lex_from(s, end, false))
        } else if is_digit(c) {
            let end = pos + 1 + run_len(s, pos + 1, Run::Alphanumeric);
            prepend(WordView::Number(s.subrange(pos, end)), lex_from(s, end, false))
        } else if c == '"' {
            let end = pos + 1 + run_len(s, pos + 1, Run::Quoted);
            let next = if end < s.len() {
                end + 1
            } else {
                end
            };
            prepend(WordView::StringLiteral(s.subrange(pos + 1, end)), lex_from(s, next, false))
        } else if c == '\n' {
            lex_from(s, pos + 1, true)
        } else if c == '\t' && line_start {
            let count = 1 + run_len(s, pos + 1, Run::Tabs);
            prepend(WordView::OpeningTab(count), lex_from(s, pos + count, true))
        } else if is_whitespace(c) {
            lex_from(s, pos + 1, false)
        } else {
            match symbol_of(c) {
                Some(symbol) => prepend(WordView::Symbol(symbol), lex_from(s, pos + 1, false)),
                None => Err(LexError { character: c, position: pos as usize }),
            }
        }
    }
}

/// The words of a whole source text.
pub open spec fn lex_spec(s: Seq<char>) -> Result<Seq<WordView>, LexError> {
    lex_from(s, 0, true)
}

/// Whether an executable result stands for a specified one: the same error,
/// or words with the specified views.
pub open spec fn lexed_as(r: Result<Vec<Word>, LexError>, expected: Result<Seq<WordView>, LexError>) -> bool {
    match expected {
        Ok(words) => r is Ok && words_view(r->Ok_0@) == words,
        Err(e) => r == Err::<Vec<Word>, LexError>(e),
    }
}

/// Tests for an ASCII letter.
pub fn is_alphabetic_char(c: char) -> (r: bool)
    ensures
        r == is_alphabetic(c),
{
    (c >= 'a' && c <= 'z') || (c >= 'A' && c <= 'Z')
}

/// Tests for a decimal digit.
pub fn is_digit_char(c: char) -> (r: bool)
    ensures
        r == is_digit(c),
{
    c >= '0' && c <= '9'
}

/// Tests for an ASCII letter or a decimal digit.
pub fn is_alphanumeric_char(c: char) -> (r: bool)
    ensures
        r == is_alphanumeric(c),
{
    is_alphabetic_char(c) || is_digit_char(c)
}

/// Tests for whitespace.
pub fn is_whitespace_char(c: char) -> (r: bool)
    ensures
        r == is_whitespace(c),
{
    c == ' ' || (c >= '\t' && c <= '\r')
}

/// Maps a punctuation character to its mark.
pub fn symbol_for(c: char) -> (r: Option<Symbol>)
    ensures
        r == symbol_of(c),
{
    if c == ';' {
        Some(Symbol::Semicolon)
    } else if c == '(' {
        Some(Symbol::OpenParenthesis)
    } else if c == ')' {
        Some(Symbol::CloseParenthesis)
    } else if c == ',' {
        Some(Symbol::Comma)
    } else if c == ':' {
        Some(Symbol::Colon)
    } else if c == '=' {
        Some(Symbol::Equals)
    } else if c == '<' {
        Some(Symbol::LessThan)
    } else if c == '>' {
        Some(Symbol::GreaterThan)
    } else if c == '+' {
        Some(Symbol::Plus)
    } else if c == '-' {
        Some(Symbol::Minus)
    } else if c == '*' {
        Some(Symbol::Star)
    } else if c == '.' {
        Some(Symbol::Period)
    } else if c == '/' {
        Some(Symbol::ForwardSlash)
    } else {
        None
    }
}

/// Looks the characters `chars[from..to]` up in the keyword table.
pub fn keyword_for(chars: &Vec<char>, from: usize, to: usize) -> (r: Option<Keyword>)
    requires
        from <= to <= chars@.len(),
    ensures
        r == keyword_of(chars@.subrange(from as int, to as int)),
{
    if range_is(chars, from, to, "a") {
        Some(Keyword::A)
    } else if range_is(chars, from, to, "ale") {
        Some(Keyword::Ale)
    } else if range_is(chars, from, to, "awen") {
        Some(Keyword::Awen)
    } else if range_is(chars, from, to, "e") {
        Some(Keyword::E)
    } else if range_is(chars, from, to, "en") {
        Some(Keyword::En)
    } else if range_is(chars, from, to, "kama") {
        Some(Keyword::Kama)
    } else if range_is(chars, from, to, "kepeken") {
        Some(Keyword::Kepeken)
    } else if range_is(chars, from, to, "la") {
        Some(Keyword::La)
    } else if range_is(chars, from, to, "li") {
        Some(Keyword::Li)
    } else if range_is(chars, from, to, "linja") {
        Some(Keyword::Linja)
    } else if range_is(chars, from, to, "luka") {
        Some(Keyword::Luka)
    } else if range_is(chars, from, to, "nanpa") {
        Some(Keyword::Nanpa)
    } else if range_is(chars, from, to, "ni") {
        Some(Keyword::Ni)
    } else if range_is(chars, from, to, "o") {
        Some(Keyword::O)
    } else if range_is(chars, from, to, "pali") {
        Some(Keyword::Pali)
    } else if range_is(chars, from, to, "pana") {
        Some(Keyword::Pana)
    } else if range_is(chars, from, to, "pi") {
        Some(Keyword::Pi)
    } else if range_is(chars, from, to, "pini") {
        Some(Keyword::Pini)
    } else if range_is(chars, from, to, "sama") {
        Some(Keyword::Sama)
    } else if range_is(chars, from, to, "sin") {
        Some(Keyword::Sin)
    } else if range_is(chars, from, to, "tawa") {
        Some(Keyword::Tawa)
    } else if range_is(chars, from, to, "tenpo") {
        Some(Keyword::Tenpo)
    } else if range_is(chars, from, to, "tu") {
        Some(Keyword::Tu)
    } else if range_is(chars, from, to, "wan") {
        Some(Keyword::Wan)
    } else if range_is(chars, from, to, "weka") {
        Some(Keyword::Weka)
    } else {
        None
    }
}

/// Appending a word to those already cut commutes with putting it in front
/// of the words still to come.
pub proof fn lemma_prepend_shift(
    done: Seq<WordView>,
    word: WordView,
    rest: Result<Seq<WordView>, LexError>,
)
    ensures
        after(done, prepend(word, rest)) == after(done.push(word), rest),
{
    match rest {
        Ok(words) => {
            assert(done + (seq![word] + words) =~= done.push(word) + words);
        },
        Err(_) => {},
    }
}

/// The words already cut, followed by the words of a result.
pub open spec fn after(done: Seq<WordView>, rest: Result<Seq<WordView>, LexError>) -> Result<
    Seq<WordView>,
    LexError,
> {
    match rest {
        Ok(words) => Ok(done + words),
        Err(e) => Err(e),
    }
}

/// The characters that some lexical rule accepts outside a string literal:
/// letters, digits, the underscore, the double quote, whitespace and the
/// punctuation marks.
pub open spec fn is_recognized(c: char) -> bool {
    is_alphanumeric(c) || c == '_' || c == '"' || is_whitespace(c) || symbol_of(c) is Some
}

/// A run ends inside the text, holds only characters of its class, and is
/// followed by a character outside the class or by the end.
pub proof fn lemma_run_len(s: Seq<char>, pos: int, run: Run)
    requires
        0 <= pos <= s.len(),
    ensures
        pos + run_len(s, pos, run) <= s.len(),
        forall|i: int| pos <= i < pos + run_len(s, pos, run) ==> run.admits(#[trigger] s[i]),
        pos + run_len(s, pos, run) < s.len() ==> !run.admits(s[pos + run_len(s, pos, run)]),
    decreases s.len() - pos,
{
    if pos < s.len() && run.admits(s[pos]) {
        lemma_run_len(s, pos + 1, run);
    }
}

/// The number of double quotes before position `i`.
pub open spec fn quotes_before(s: Seq<char>, i: int) -> nat
    decreases i,
{
    if i <= 0 || i > s.len() {
        0
    } else {
        quotes_before(s, i - 1) + if s[i - 1] == '"' {
            1nat
        } else {
            0nat
        }
    }
}

/// Whether position `i` lies outside every string literal: double quotes
/// open and close literals in turn, so it does where an even number of them
/// stands before it.
pub open spec fn outside_literal(s: Seq<char>, i: int) -> bool {
    quotes_before(s, i) % 2 == 0
}

/// Whether every character from `pos` on that stands outside the string
/// literals is a recognized one.
pub open spec fn all_recognized(s: Seq<char>, pos: int) -> bool {
    forall|i: int| pos <= i < s.len() && outside_literal(s, i) ==> is_recognized(#[trigger] s[i])
}

/// Over a stretch without double quotes the number of quotes before stays
/// the same.
pub proof fn lemma_quotes_run(s: Seq<char>, from: int, to: int)
    requires
        0 <= from <= to <= s.len(),
        forall|i: int| from <= i < to ==> #[trigger] s[i] != '"',
    ensures
        quotes_before(s, to) == quotes_before(s, from),
    decreases to - from,
{
    if from < to {
        lemma_quotes_run(s, from, to - 1);
    }
}

/// The characters outside literals from `pos` on are recognized exactly if
/// those before `next` are and those from `next` on are.
pub proof fn lemma_recognized_split(s: Seq<char>, pos: int, next: int)
    requires
        0 <= pos <= next <= s.len(),
    ensures
        all_recognized(s, pos) <==> (forall|i: int|
            pos <= i < next && outside_literal(s, i) ==> is_recognized(#[trigger] s[i]))
            && all_recognized(s, next),
{
    if (forall|i: int| pos <= i < next && outside_literal(s, i) ==> is_recognized(#[trigger] s[i]))
        && all_recognized(s, next) {
        assert forall|i: int| pos <= i < s.len() && outside_literal(s, i) implies is_recognized(
            #[trigger] s[i],
        ) by {
            if i >= next {
            }
        }
    }
}

/// A run of characters of a class other than the quoted one is recognized
/// throughout, and leaves the lexer outside the string literals where it
/// started outside.
pub proof fn lemma_plain_run(s: Seq<char>, pos: int, run: Run)
    requires
        0 <= pos < s.len(),
        run != Run::Quoted,
        s[pos] != '"',
        is_recognized(s[pos]),
    ensures
        pos + 1 + run_len(s, pos + 1, run) <= s.len(),
        quotes_before(s, pos + 1 + run_len(s, pos + 1, run)) == quotes_before(s, pos),
        forall|i: int|
            pos <= i < pos + 1 + run_len(s, pos + 1, run) ==> is_recognized(#[trigger] s[i]),
{
    lemma_run_len(s, pos + 1, run);
    let end = pos + 1 + run_len(s, pos + 1, run);
    assert forall|i: int| pos <= i < end implies #[trigger] s[i] != '"' && is_recognized(s[i]) by {
        if i > pos {
            assert(run.admits(s[i]));
        }
    }
    lemma_quotes_run(s, pos, end);
}

/// Whether lexing from `pos` succeeds exactly if every character from
/// there on that stands outside the string literals is a recognized one,
/// and, where it fails, names a character outside the string literals that
/// is not recognized.
pub open spec fn defined_from(s: Seq<char>, pos: int, line_start: bool) -> bool {
    &&& lex_from(s, pos, line_start) is Ok <==> all_recognized(s, pos)
    &&& lex_from(s, pos, line_start) matches Err(e) ==> {
        &&& pos <= e.position < s.len()
        &&& s[e.position as int] == e.character
        &&& outside_literal(s, e.position as int)
        &&& !is_recognized(e.character)
    }
}

/// Lexing from a position outside the string literals succeeds exactly if
/// every character from there on that stands outside the string literals
/// is a recognized one. When it fails, the error names a character outside
/// the string literals that is not recognized.
pub proof fn lemma_lex_defined(s: Seq<char>, pos: int, line_start: bool)
    requires
        0 <= pos <= s.len(),
        s.len() <= usize::MAX,
        outside_literal(s, pos),
    ensures
        defined_from(s, pos, line_start),
    decreases s.len() - pos,
{
    if pos < s.len() {
        let c = s[pos];
        if is_alphabetic(c) || c == '_' {
            let end = pos + 1 + run_len(s, pos + 1, Run::Name);
            lemma_plain_run(s, pos, Run::Name);
            lemma_recognized_split(s, pos, end);
            lemma_lex_defined(s, end, false);
            assert(defined_from(s, pos, line_start));
        } else if is_digit(c) {
            let end = pos + 1 + run_len(s, pos + 1, Run::Alphanumeric);
            lemma_plain_run(s, pos, Run::Alphanumeric);
            lemma_recognized_split(s, pos, end);
            lemma_lex_defined(s, end, false);
            assert(defined_from(s, pos, line_start));
        } else if c == '"' {
            lemma_run_len(s, pos + 1, Run::Quoted);
            let end = pos + 1 + run_len(s, pos + 1, Run::Quoted);
            // Between the two quotes, and at the closing one, an odd number
            // of quotes stands before each position.
            assert forall|i: int| pos < i <= end implies !outside_literal(s, i) by {
                lemma_quotes_run(s, pos + 1, i);
            }
            if end < s.len() {
                lemma_quotes_run(s, pos + 1, end);
                assert(quotes_before(s, end + 1) == quotes_before(s, pos) + 2);
                lemma_recognized_split(s, pos, end + 1);
                lemma_lex_defined(s, end + 1, false);
                assert(defined_from(s, pos, line_start));
            } else {
                lemma_recognized_split(s, pos, end);
                assert(lex_from(s, end, false) is Ok);
                assert(defined_from(s, pos, line_start));
            }
        } else if c == '\n' {
            lemma_recognized_split(s, pos, pos + 1);
            lemma_lex_defined(s, pos + 1, true);
            assert(defined_from(s, pos, line_start));
        } else if c == '\t' && line_start {
            let end = pos + 1 + run_len(s, pos + 1, Run::Tabs);
            lemma_plain_run(s, pos, Run::Tabs);
            lemma_recognized_split(s, pos, end);
            lemma_lex_defined(s, end, true);
            assert(defined_from(s, pos, line_start));
        } else {
            lemma_recognized_split(s, pos, pos + 1);
            lemma_lex_defined(s, pos + 1, false);
            assert(defined_from(s, pos, line_start));
        }
    }
}

/// Lexing is defined exactly on the texts whose characters outside the
/// string literals are all recognized: a text is cut into words if and only
/// if every character of it is a letter, a digit, an underscore, a double
/// quote, whitespace or a punctuation mark, or stands between two double
/// quotes (or behind a last, unclosed one).
pub proof fn lemma_lexer_defined(s: Seq<char>)
    requires
        s.len() <= usize::MAX,
    ensures
        lex_spec(s) is Ok <==> (forall|i: int|
            0 <= i < s.len() && outside_literal(s, i) ==> is_recognized(#[trigger] s[i])),
        lex_spec(s) matches Err(e) ==> {
            &&& e.position < s.len()
            &&& s[e.position as int] == e.character
            &&& outside_literal(s, e.position as int)
            &&& !is_recognized(e.character)
        },
{
    lemma_lex_defined(s, 0, true);
}

/// A cursor over the characters of a source text.
pub struct Lexer {
    buffer: String,
    chars: Vec<char>,
    current_position: usize,
}

impl Lexer {
    /// The source text.
    pub closed spec fn source(&self) -> Seq<char> {
        self.buffer@
    }

    /// The index of the next character to read.
    pub closed spec fn position(&self) -> nat {
        self.current_position as nat
    }

    /// The characters that the lexer reads are those of the source.
    pub closed spec fn wf(&self) -> bool {
        self.chars@ == self.buffer@
    }

    /// A lexer at the start of `source`.
    pub fn new(source: &str) -> (lexer: Lexer)
        ensures
            lexer.wf(),
            lexer.source() == source@,
            lexer.position() == 0,
    {
        Lexer { buffer: source.to_owned(), chars: chars_of(source), current_position: 0 }
    }

    /// Steps the cursor on by one, whether a character is left or not.
    pub fn consume(&mut self)
        requires
            old(self).wf(),
            old(self).position() < usize::MAX,
        ensures
            final(self).wf(),
            final(self).source() == old(self).source(),
            final(self).position() == old(self).position() + 1,
    {
        self.current_position += 1;
    }

    /// The next character, if any is left.
    pub fn peek(&self) -> (c: Option<char>)
        requires
            self.wf(),
        ensures
            c == if self.position() < self.source().len() {
                Some(self.source()[self.position() as int])
            } else {
                None::<char>
            },
    {
        if self.current_position < self.chars.len() {
            Some(self.chars[self.current_position])
        } else {
            None
        }
    }

    /// Steps over the longest run of characters of class `run`.
    fn skip(&mut self, run: Run)
        requires
            old(self).wf(),
            old(self).position() <= old(self).source().len(),
        ensures
            final(self).wf(),
            final(self).source() == old(self).source(),
            final(self).position() <= final(self).source().len(),
            final(self).position() == old(self).position() + run_len(
                old(self).source(),
                old(self).position() as int,
                run,
            ),
    {
        let ghost start = self.current_position as int;
        let ghost s = self.chars@;
        while self.current_position < self.chars.len()
            invariant
                self.wf(),
                self.buffer@ == s,
                start <= self.current_position <= self.chars.len(),
                (self.current_position - start) + run_len(s, self.current_position as int, run)
                    == run_len(s, start, run),
            ensures
                self.wf(),
                self.buffer@ == s,
                self.current_position <= self.chars.len(),
                (self.current_position - start) == run_len(s, start, run),
            decreases self.chars.len() - self.current_position,
        {
            if !run.accepts(self.chars[self.current_position]) {
                break;
            }
            self.current_position += 1;
        }
    }

    /// The text between two positions, as an owned string.
    fn text(&self, from: usize, to: usize) -> (s: String)
        requires
            self.wf(),
            from <= to <= self.source().len(),
        ensures
            s@ == self.source().subrange(from as int, to as int),
    {
        self.buffer.as_str().substring_char(from, to).to_owned()
    }

    /// Cuts the rest of the source into words. Stops at the first character
    /// that no rule accepts and reports it with its position.
    pub fn lex(&mut self) -> (r: Result<Vec<Word>, LexError>)
        requires
            old(self).wf(),
        ensures
            final(self).wf(),
            final(self).source() == old(self).source(),
            lexed_as(r, lex_from(old(self).source(), old(self).position() as int, true)),
            r is Ok ==> final(self).position() == if old(self).position() <= old(
                self,
            ).source().len() {
                old(self).source().len()
            } else {
                old(self).position()
            },
    {
        let mut words: Vec<Word> = Vec::new();
        let mut is_line_start = true;
        let ghost s = self.chars@;
        let ghost goal = lex_from(s, self.current_position as int, true);
        assert(after(Seq::empty(), goal) == goal);
        while self.current_position < self.chars.len()
            invariant
                self.wf(),
                self.buffer@ == s,
                s == old(self).buffer@,
                old(self).current_position <= s.len() ==> self.current_position <= s.len(),
                old(self).current_position > s.len() ==> self.current_position == old(
                    self,
                ).current_position,
                goal == lex_from(s, old(self).current_position as int, true),
                after(words_view(words@), lex_from(s, self.current_position as int, is_line_start))
                    == goal,
            decreases self.chars.len() - self.current_position,
        {
            let c = self.chars[self.current_position];
            let first = self.current_position;
            let ghost done = words_view(words@);
            if is_alphabetic_char(c) || c == '_' {
                self.consume();
                self.skip(Run::Name);
                let word = match keyword_for(&self.chars, first, self.current_position) {
                    Some(k) => Word::Keyword(k),
                    None => Word::Name(self.text(first, self.current_position)),
                };
                proof {
                    lemma_prepend_shift(
                        done,
                        word@,
                        lex_from(s, self.current_position as int, false),
                    );
                }
                words.push(word);
                is_line_start = false;
            } else if is_digit_char(c) {
                self.consume();
                self.skip(Run::Alphanumeric);
                let word = Word::Number(self.text(first, self.current_position));
                proof {
                    lemma_prepend_shift(
                        done,
                        word@,
                        lex_from(s, self.current_position as int, false),
                    );
                }
                words.push(word);
                is_line_start = false;
            } else if c == '"' {
                self.consume();
                self.skip(Run::Quoted);
                let word = Word::StringLiteral(self.text(first + 1, self.current_position));
                if self.current_position < self.chars.len() {
                    self.consume();
                }
                proof {
                    lemma_prepend_shift(
                        done,
                        word@,
                        lex_from(s, self.current_position as int, false),
                    );
                }
                words.push(word);
                is_line_start = false;
            } else if c == '\n' {
                self.consume();
                is_line_start = true;
            } else if c == '\t' && is_line_start {
                self.consume();
                self.skip(Run::Tabs);
                let word = Word::OpeningTab(self.current_position - first);
                proof {
                    lemma_prepend_shift(
                        done,
                        word@,
                        lex_from(s, self.current_position as int, true),
                    );
                }
                words.push(word);
            } else if is_whitespace_char(c) {
                self.consume();
                is_line_start = false;
            } else {
                match symbol_for(c) {
                    Some(symbol) => {
                        self.consume();
                        let word = Word::Symbol(symbol);
                        proof {
                            lemma_prepend_shift(
                                done,
                                word@,
                                lex_from(s, self.current_position as int, false),
                            );
                        }
                        words.push(word);
                        is_line_start = false;
                    },
                    None => {
                        return Err(LexError { character: c, position: first });
                    },
                }
            }
            assert(words_view(words@) =~= if words@.len() == done.len() {
                done
            } else {
                done.push(words@.last()@)
            });
        }
        Ok(words)
    }
}

/// Cuts a source text into words.
pub fn lex(source: &str) -> (r: Result<Vec<Word>, LexError>)
    ensures
        lexed_as(r, lex_spec(source@)),
{
    let mut lexer = Lexer::new(source);
    lexer.lex()
}

} // verus!
