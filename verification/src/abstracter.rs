//! The phrase assembler: words to tokens. Fixed multi-word idioms fold into
//! one phrase token each, and runs of unit numerals fold into one number.

use vstd::prelude::*;
use vstd::string::*;
use crate::error::PhraseError;
use crate::text::{decimal, decimal_string};
use crate::token::{Phrase, Token, TokenView, tokens_view};
use crate::word::{Keyword, Word, WordView, words_view};

verus! {

/// Whether the word at `pos` is the keyword `k`.
pub open spec fn keyword_at(words: Seq<WordView>, pos: int, k: Keyword) -> bool {
    0 <= pos < words.len() && words[pos] == WordView::Keyword(k)
}

/// Whether the word at `pos` is an identifier.
pub open spec fn name_at(words: Seq<WordView>, pos: int) -> bool {
    0 <= pos < words.len() && words[pos] is Name
}

/// The number of words from `pos` on.
pub open spec fn words_left(words: Seq<WordView>, pos: int) -> nat {
    if 0 <= pos < words.len() {
        (words.len() - pos) as nat
    } else {
        0
    }
}

/// The length of the longest run of unit numerals that starts at `pos`.
pub open spec fn numeral_run(words: Seq<WordView>, pos: int) -> nat
    decreases words_left(words, pos),
{
    if 0 <= pos < words.len() && words[pos].numeral_weight() is Some {
        1 + numeral_run(words, pos + 1)
    } else {
        0
    }
}

/// The sum of the weights of the unit numerals in the longest run that
/// starts at `pos`: 1 for each `wan`, 2 for each `tu`, 5 for each `luka`.
pub open spec fn numeral_sum(words: Seq<WordView>, pos: int) -> nat
    decreases words_left(words, pos),
{
    if 0 <= pos < words.len() {
        match words[pos].numeral_weight() {
            Some(w) => w + numeral_sum(words, pos + 1),
            None => 0,
        }
    } else {
        0
    }
}

/// The phrase that starts with the `o` at `pos`, and the number of words it
/// spans.
pub open spec fn phrase_o(words: Seq<WordView>, pos: int) -> Result<(TokenView, nat), PhraseError> {
    if keyword_at(words, pos + 1, Keyword::Tawa) {
        Ok((TokenView::Phrase(Phrase::OTawa), 2))
    } else if name_at(words, pos + 1) {
        Ok((TokenView::Phrase(Phrase::O), 1))
    } else if keyword_at(words, pos + 1, Keyword::Weka) {
        Ok((TokenView::Phrase(Phrase::OWeka), 2))
    } else if keyword_at(words, pos + 1, Keyword::Sin) {
        if keyword_at(words, pos + 2, Keyword::E) {
            Ok((TokenView::Phrase(Phrase::OSin), 3))
        } else {
            Err(PhraseError::MissingParticle { particle: Keyword::E, position: (pos + 2) as usize })
        }
    } else if keyword_at(words, pos + 1, Keyword::Pini) {
        Ok((TokenView::Phrase(Phrase::OPini), 2))
    } else {
        Err(PhraseError::UnknownPhrase { position: (pos + 1) as usize })
    }
}

/// The phrase that starts with the `tenpo` at `pos`.
pub open spec fn phrase_tenpo(words: Seq<WordView>, pos: int) -> Result<
    (TokenView, nat),
    PhraseError,
> {
    if keyword_at(words, pos + 1, Keyword::Ale) {
        if keyword_at(words, pos + 2, Keyword::Pi) {
            Ok((TokenView::Phrase(Phrase::TenpoAlePi), 3))
        } else {
            Err(
                PhraseError::MissingParticle { particle: Keyword::Pi, position: (pos + 2) as usize },
            )
        }
    } else if keyword_at(words, pos + 1, Keyword::Pi) {
        Ok((TokenView::Phrase(Phrase::TenpoPi), 2))
    } else {
        Err(PhraseError::UnknownPhrase { position: (pos + 1) as usize })
    }
}

/// The phrase that starts with the `li` at `pos`.
pub open spec fn phrase_li(words: Seq<WordView>, pos: int) -> Result<(TokenView, nat), PhraseError> {
    if keyword_at(words, pos + 1, Keyword::Kama) {
        if keyword_at(words, pos + 2, Keyword::Sama) {
            Ok((TokenView::Phrase(Phrase::LiKamaSama), 3))
        } else {
            Err(
                PhraseError::MissingParticle {
                    particle: Keyword::Sama,
                    position: (pos + 2) as usize,
                },
            )
        }
    } else if keyword_at(words, pos + 1, Keyword::Kepeken) {
        Ok((TokenView::Phrase(Phrase::LiKepeken), 2))
    } else if keyword_at(words, pos + 1, Keyword::Pali) {
        if !keyword_at(words, pos + 2, Keyword::E) {
            Err(PhraseError::MissingParticle { particle: Keyword::E, position: (pos + 2) as usize })
        } else if !keyword_at(words, pos + 3, Keyword::Ni) {
            Err(
                PhraseError::MissingParticle { particle: Keyword::Ni, position: (pos + 3) as usize },
            )
        } else {
            Ok((TokenView::Phrase(Phrase::LiPaliENi), 4))
        }
    } else if keyword_at(words, pos + 1, Keyword::Pana) {
        if keyword_at(words, pos + 2, Keyword::E) {
            Ok((TokenView::Phrase(Phrase::LiPanaE), 3))
        } else {
            Err(PhraseError::MissingParticle { particle: Keyword::E, position: (pos + 2) as usize })
        }
    } else {
        Err(PhraseError::UnknownPhrase { position: (pos + 1) as usize })
    }
}

/// The token that starts at `pos`, and the number of words it spans.
///
/// Identifiers, numbers, string literals, leading tabs and punctuation are
/// promoted as they are. `o`, `tenpo` and `li` open an idiom. A unit numeral
/// opens a run of unit numerals, which becomes the decimal numeral of the
/// sum of their weights. A few keywords stand alone. Any other keyword is a
/// stray particle.
pub open spec fn phrase_at(words: Seq<WordView>, pos: int) -> Result<(TokenView, nat), PhraseError>
    recommends
        0 <= pos < words.len(),
{
    match words[pos] {
        WordView::Name(s) => Ok((TokenView::Name(s), 1)),
        WordView::Number(s) => Ok((TokenView::Number(s), 1)),
        WordView::StringLiteral(s) => Ok((TokenView::StringLiteral(s), 1)),
        WordView::OpeningTab(n) => Ok((TokenView::OpeningTab(n), 1)),
        WordView::Symbol(s) => Ok((TokenView::Symbol(s), 1)),
        WordView::Keyword(k) => if k == Keyword::O {
            phrase_o(words, pos)
        } else if k == Keyword::Tenpo {
            phrase_tenpo(words, pos)
        } else if k == Keyword::Li {
            phrase_li(words, pos)
        } else if words[pos].numeral_weight() is Some {
            Ok(
                (
                    TokenView::Number(decimal(numeral_sum(words, pos))),
                    1 + numeral_run(words, pos + 1),
                ),
            )
        } else if k.stands_alone() {
            Ok((TokenView::Keyword(k), 1))
        } else {
            Err(PhraseError::StrayWord { position: pos as usize })
        },
    }
}

/// Puts one token in front of the tokens of a result.
pub open spec fn prepend(token: TokenView, rest: Result<Seq<TokenView>, PhraseError>) -> Result<
    Seq<TokenView>,
    PhraseError,
> {
    match rest {
        Ok(tokens) => Ok(seq![token] + tokens),
        Err(e) => Err(e),
    }
}

/// The tokens already made, followed by the tokens of a result.
pub open spec fn after(done: Seq<TokenView>, rest: Result<Seq<TokenView>, PhraseError>) -> Result<
    Seq<TokenView>,
    PhraseError,
> {
    match rest {
        Ok(tokens) => Ok(done + tokens),
        Err(e) => Err(e),
    }
}

/// The tokens of the words from `pos` on, or the first fault.
pub open spec fn tokenize_from(words: Seq<WordView>, pos: int) -> Result<
    Seq<TokenView>,
    PhraseError,
>
    decreases words_left(words, pos),
{
    if pos < 0 || pos >= words.len() {
        Ok(Seq::empty())
    } else {
        match phrase_at(words, pos) {
            Ok((token, span)) => prepend(token, tokenize_from(words, pos + span)),
            Err(e) => Err(e),
        }
    }
}

/// The tokens of a whole sequence of words.
pub open spec fn tokenize_spec(words: Seq<WordView>) -> Result<Seq<TokenView>, PhraseError> {
    tokenize_from(words, 0)
}

/// Whether an executable result stands for a specified one.
pub open spec fn tokenized_as(
    r: Result<Vec<Token>, PhraseError>,
    expected: Result<Seq<TokenView>, PhraseError>,
) -> bool {
    match expected {
        Ok(tokens) => r is Ok && tokens_view(r->Ok_0@) == tokens,
        Err(e) => r == Err::<Vec<Token>, PhraseError>(e),
    }
}

/// Appending a token to those already made commutes with putting it in
/// front of the tokens still to come.
pub proof fn lemma_prepend_shift(
    done: Seq<TokenView>,
    token: TokenView,
    rest: Result<Seq<TokenView>, PhraseError>,
)
    ensures
        after(done, prepend(token, rest)) == after(done.push(token), rest),
{
    match rest {
        Ok(tokens) => {
            assert(done + (seq![token] + tokens) =~= done.push(token) + tokens);
        },
        Err(_) => {},
    }
}

/// Every phrase spans at least one word and ends inside the words.
pub proof fn lemma_phrase_span(words: Seq<WordView>, pos: int)
    requires
        0 <= pos < words.len(),
    ensures
        phrase_at(words, pos) matches Ok((_, span)) ==> 1 <= span && pos + span <= words.len(),
{
    lemma_numeral_run(words, pos + 1);
}

/// A run of unit numerals ends inside the words.
pub proof fn lemma_numeral_run(words: Seq<WordView>, pos: int)
    requires
        0 <= pos <= words.len(),
    ensures
        pos + numeral_run(words, pos) <= words.len(),
    decreases words.len() - pos,
{
    if pos < words.len() && words[pos].numeral_weight() is Some {
        lemma_numeral_run(words, pos + 1);
    }
}

/// The number of times the keyword `k` occurs in the words from `pos` on.
pub open spec fn occurrences(words: Seq<WordView>, pos: int, k: Keyword) -> nat
    decreases words_left(words, pos),
{
    if 0 <= pos < words.len() {
        (if words[pos] == WordView::Keyword(k) {
            1nat
        } else {
            0nat
        }) + occurrences(words, pos + 1, k)
    } else {
        0
    }
}

/// Where the words from `pos` on are all unit numerals, the run at `pos`
/// takes them all, and its sum is the number of `wan`, plus twice the number
/// of `tu`, plus five times the number of `luka`.
pub proof fn lemma_numeral_sum(words: Seq<WordView>, pos: int)
    requires
        0 <= pos <= words.len(),
        forall|i: int| pos <= i < words.len() ==> (#[trigger] words[i]).numeral_weight() is Some,
    ensures
        numeral_run(words, pos) == words.len() - pos,
        numeral_sum(words, pos) == occurrences(words, pos, Keyword::Wan) + 2 * occurrences(
            words,
            pos,
            Keyword::Tu,
        ) + 5 * occurrences(words, pos, Keyword::Luka),
    decreases words.len() - pos,
{
    if pos < words.len() {
        lemma_numeral_sum(words, pos + 1);
    }
}

/// Numeral folding: a nonempty sequence of `wan`, `tu` and `luka` becomes
/// one number token, and the number it writes is the sum over the
/// occurrences of 1 for `wan`, 2 for `tu` and 5 for `luka`.
pub proof fn lemma_numerals_fold(words: Seq<WordView>)
    requires
        words.len() > 0,
        forall|i: int| 0 <= i < words.len() ==> (#[trigger] words[i]).numeral_weight() is Some,
    ensures
        tokenize_spec(words) matches Ok(tokens) && tokens.len() == 1 && (tokens[0] matches TokenView::Number(
            text,
        ) && crate::text::decimal_value(text) == Some(
            occurrences(words, 0, Keyword::Wan) + 2 * occurrences(words, 0, Keyword::Tu) + 5
                * occurrences(words, 0, Keyword::Luka),
        )),
{
    lemma_numeral_sum(words, 1);
    crate::text::lemma_decimal_round_trip(numeral_sum(words, 0));
    let token = TokenView::Number(decimal(numeral_sum(words, 0)));
    assert(tokenize_from(words, words.len() as int) == Ok::<Seq<TokenView>, PhraseError>(
        Seq::empty(),
    ));
}

/// Whether no raw part of an idiom is left among the tokens: every keyword
/// token is one that stands alone, and every call introducer is directly
/// followed by the identifier of the function to call.
pub open spec fn folded(tokens: Seq<TokenView>) -> bool {
    forall|i: int|
        0 <= i < tokens.len() ==> {
            &&& (#[trigger] tokens[i] matches TokenView::Keyword(k) ==> k.stands_alone())
            &&& (tokens[i] == TokenView::Phrase(Phrase::O) ==> i + 1 < tokens.len() && tokens[i
                + 1] is Name)
        }
}

/// The tokens that the assembler makes are folded: each idiom has become
/// one phrase token, and no `o`, `li`, `tenpo` or other particle of an idiom
/// is left as a token of its own.
pub proof fn lemma_tokens_folded(words: Seq<WordView>, pos: int)
    requires
        0 <= pos <= words.len(),
    ensures
        tokenize_from(words, pos) matches Ok(tokens) ==> folded(tokens) && (name_at(words, pos)
            ==> tokens.len() > 0 && tokens[0] is Name),
    decreases words.len() - pos,
{
    if pos < words.len() {
        lemma_phrase_span(words, pos);
        match phrase_at(words, pos) {
            Ok((token, span)) => {
                lemma_tokens_folded(words, pos + span);
                match tokenize_from(words, pos + span) {
                    Ok(rest) => {
                        let tokens = seq![token] + rest;
                        assert forall|i: int| 0 <= i < tokens.len() implies {
                            &&& (#[trigger] tokens[i] matches TokenView::Keyword(k)
                                ==> k.stands_alone())
                            &&& (tokens[i] == TokenView::Phrase(Phrase::O) ==> i + 1
                                < tokens.len() && tokens[i + 1] is Name)
                        } by {}
                    },
                    Err(_) => {},
                }
            },
            Err(_) => {},
        }
    }
}

/// Whatever words the assembler accepts, the tokens it makes of them are
/// folded.
pub proof fn lemma_tokenize_folded(words: Seq<WordView>)
    ensures
        tokenize_spec(words) matches Ok(tokens) ==> folded(tokens),
{
    lemma_tokens_folded(words, 0);
}

/// A cursor over words, and the tokens made so far.
pub struct Abstracter {
    words: Vec<Word>,
    current_word: usize,
    tokens: Vec<Token>,
}

impl Abstracter {
    /// The words to fold.
    pub closed spec fn words(&self) -> Seq<WordView> {
        words_view(self.words@)
    }

    /// The index of the next word to read.
    pub closed spec fn position(&self) -> nat {
        self.current_word as nat
    }

    /// The tokens made so far.
    pub closed spec fn tokens(&self) -> Seq<TokenView> {
        tokens_view(self.tokens@)
    }

    /// Whether `next` is `self` after one more token `token` that spans
    /// `span` words.
    pub open spec fn advanced(&self, next: &Abstracter, token: TokenView, span: nat) -> bool {
        &&& next.words() == self.words()
        &&& next.position() == self.position() + span
        &&& next.tokens() == self.tokens().push(token)
    }

    /// Whether `next` is `self`, with the same words, cursor and tokens.
    pub open spec fn untouched(&self, next: &Abstracter) -> bool {
        &&& next.words() == self.words()
        &&& next.position() == self.position()
        &&& next.tokens() == self.tokens()
    }

    /// Whether `r` and `next` are what `outcome` asks for: on success one
    /// more token and the cursor moved past its words, on failure the same
    /// error. The words stay as they are either way.
    pub open spec fn stepped(
        &self,
        next: &Abstracter,
        r: Result<(), PhraseError>,
        outcome: Result<(TokenView, nat), PhraseError>,
    ) -> bool {
        &&& next.words() == self.words()
        &&& match outcome {
            Ok((token, span)) => r is Ok && self.advanced(next, token, span),
            Err(e) => r == Err::<(), PhraseError>(e),
        }
    }

    /// An abstracter at the start of `words`, with no tokens yet.
    pub fn new(words: Vec<Word>) -> (a: Abstracter)
        ensures
            a.words() == words_view(words@),
            a.position() == 0,
            a.tokens() == Seq::<TokenView>::empty(),
    {
        let a = Abstracter { words, current_word: 0, tokens: Vec::new() };
        a
    }

    /// Hands out the tokens made so far.
    pub fn into_tokens(self) -> (tokens: Vec<Token>)
        ensures
            tokens_view(tokens@) == self.tokens(),
    {
        self.tokens
    }

    /// The words are no more than a machine word can count.
    pub proof fn lemma_words_fit(&self)
        ensures
            self.words().len() <= usize::MAX,
    {
        assert(self.words().len() == self.words.len());
    }

    /// The next word, if any is left.
    pub fn peek(&self) -> (w: Option<&Word>)
        ensures
            match w {
                Some(word) => self.position() < self.words().len() && word@
                    == self.words()[self.position() as int],
                None => self.position() >= self.words().len(),
            },
            w is Some ==> self.position() < usize::MAX,
    {
        if self.current_word < self.words.len() {
            Some(&self.words[self.current_word])
        } else {
            None
        }
    }

    /// Steps the cursor on by one, whether a word is left or not.
    pub fn consume(&mut self)
        requires
            old(self).position() < usize::MAX,
        ensures
            final(self).words() == old(self).words(),
            final(self).tokens() == old(self).tokens(),
            final(self).position() == old(self).position() + 1,
    {
        self.current_word += 1;
    }

    /// Appends a token.
    pub fn push(&mut self, token: Token)
        ensures
            final(self).words() == old(self).words(),
            final(self).position() == old(self).position(),
            final(self).tokens() == old(self).tokens().push(token@),
    {
        self.tokens.push(token);
    }

    /// Steps back over the last word.
    pub fn unconsume(&mut self)
        requires
            old(self).position() > 0,
        ensures
            final(self).words() == old(self).words(),
            final(self).tokens() == old(self).tokens(),
            final(self).position() == old(self).position() - 1,
    {
        self.current_word -= 1;
    }

    /// Whether a word is a unit numeral: `wan`, `tu` or `luka`.
    pub fn is_number(word: &Word) -> (r: bool)
        ensures
            r == word@.numeral_weight() is Some,
    {
        match word {
            Word::Keyword(Keyword::Wan) | Word::Keyword(Keyword::Tu) | Word::Keyword(
                Keyword::Luka,
            ) => true,
            _ => false,
        }
    }

    /// Whether the next word is of the kind of `expected`.
    pub fn expect(&self, expected: Word) -> (r: bool)
        ensures
            r == (self.position() < self.words().len() && self.words()[self.position() as int].same_kind(
                expected@,
            )),
            r ==> self.position() < usize::MAX,
    {
        match self.peek() {
            None => false,
            Some(word) => word.same_kind(&expected),
        }
    }

    /// Whether the next word is the keyword `k`.
    fn at_keyword(&self, k: Keyword) -> (r: bool)
        ensures
            r == keyword_at(self.words(), self.position() as int, k),
            r ==> self.position() < usize::MAX,
    {
        self.expect(Word::Keyword(k))
    }

    /// Appends a phrase token.
    fn push_phrase(&mut self, phrase: Phrase)
        ensures
            final(self).words() == old(self).words(),
            final(self).position() == old(self).position(),
            final(self).tokens() == old(self).tokens().push(TokenView::Phrase(phrase)),
    {
        self.push(Token::Phrase(phrase));
    }

    /// Folds the idiom that the `o` at the cursor opens.
    pub fn tokenize_o(&mut self) -> (r: Result<(), PhraseError>)
        requires
            keyword_at(old(self).words(), old(self).position() as int, Keyword::O),
        ensures
            old(self).stepped(final(self), r, phrase_o(old(self).words(), old(self).position() as int)),
    {
        proof {
            self.lemma_words_fit();
        }
        self.consume();
        if self.at_keyword(Keyword::Tawa) {
            self.consume();
            self.push_phrase(Phrase::OTawa);
            return Ok(());
        }
        if self.expect(Word::Name(String::new())) {
            self.push_phrase(Phrase::O);
            return Ok(());
        }
        if self.at_keyword(Keyword::Weka) {
            self.consume();
            self.push_phrase(Phrase::OWeka);
            return Ok(());
        }
        if self.at_keyword(Keyword::Sin) {
            self.consume();
            if self.at_keyword(Keyword::E) {
                self.consume();
                self.push_phrase(Phrase::OSin);
                return Ok(());
            }
            return Err(
                PhraseError::MissingParticle { particle: Keyword::E, position: self.current_word },
            );
        }
        if self.at_keyword(Keyword::Pini) {
            self.consume();
            self.push_phrase(Phrase::OPini);
            return Ok(());
        }
        Err(PhraseError::UnknownPhrase { position: self.current_word })
    }

    /// Folds the run of unit numerals at the cursor into one number token
    /// that carries the sum of their weights in decimal.
    pub fn tokenize_nanpas(&mut self)
        ensures
            old(self).advanced(
                final(self),
                TokenView::Number(
                    decimal(numeral_sum(old(self).words(), old(self).position() as int)),
                ),
                numeral_run(old(self).words(), old(self).position() as int),
            ),
    {
        let mut result: u128 = 0;
        let ghost start = self.current_word as int;
        let ghost words = self.words();
        while self.current_word < self.words.len()
            invariant
                    self.words() == words,
                self.tokens() == old(self).tokens(),
                start <= self.current_word,
                result <= 5 * (self.current_word - start),
                result + numeral_sum(words, self.current_word as int) == numeral_sum(words, start),
                (self.current_word - start) + numeral_run(words, self.current_word as int)
                    == numeral_run(words, start),
            ensures
                    self.words() == words,
                self.tokens() == old(self).tokens(),
                result == numeral_sum(words, start),
                (self.current_word - start) == numeral_run(words, start),
            decreases self.words.len() - self.current_word,
        {
            let weight: u128 = match &self.words[self.current_word] {
                Word::Keyword(Keyword::Wan) => 1,
                Word::Keyword(Keyword::Tu) => 2,
                Word::Keyword(Keyword::Luka) => 5,
                _ => {
                    break ;
                },
            };
            result = result + weight;
            self.current_word += 1;
        }
        self.push(Token::Number(decimal_string(result)));
    }

    /// Promotes the identifier at the cursor. Does nothing at any other
    /// word.
    pub fn tokenize_name(&mut self)
        ensures
            final(self).words() == old(self).words(),
            match old(self).current() {
                Some(WordView::Name(s)) => old(self).advanced(final(self), TokenView::Name(s), 1),
                _ => final(self).position() == old(self).position() && final(self).tokens() == old(
                    self,
                ).tokens(),
            },
    {
        let name = match self.peek() {
            Some(Word::Name(name)) => name.clone(),
            _ => {
                return ;
            },
        };
        self.push(Token::Name(name));
        self.consume();
    }

    /// The word at the cursor, if any.
    pub open spec fn current(&self) -> Option<WordView> {
        if self.position() < self.words().len() {
            Some(self.words()[self.position() as int])
        } else {
            None
        }
    }

    /// Promotes the number at the cursor. Does nothing at any other word.
    pub fn tokenize_number(&mut self)
        ensures
            final(self).words() == old(self).words(),
            match old(self).current() {
                Some(WordView::Number(s)) => old(self).advanced(
                    final(self),
                    TokenView::Number(s),
                    1,
                ),
                _ => final(self).position() == old(self).position() && final(self).tokens() == old(
                    self,
                ).tokens(),
            },
    {
        let number = match self.peek() {
            Some(Word::Number(number)) => number.clone(),
            _ => {
                return ;
            },
        };
        self.push(Token::Number(number));
        self.consume();
    }

    /// Folds the idiom that the `tenpo` at the cursor opens. Does nothing
    /// at any other word.
    pub fn tokenize_tenpo(&mut self) -> (r: Result<(), PhraseError>)
        ensures
            keyword_at(old(self).words(), old(self).position() as int, Keyword::Tenpo) ==> old(
                self,
            ).stepped(final(self), r, phrase_tenpo(old(self).words(), old(self).position() as int)),
            !keyword_at(old(self).words(), old(self).position() as int, Keyword::Tenpo) ==> r is Ok
                && old(self).untouched(final(self)),
    {
        if !self.at_keyword(Keyword::Tenpo) {
            return Ok(());
        }
        self.consume();
        if self.at_keyword(Keyword::Ale) {
            self.consume();
            if !self.at_keyword(Keyword::Pi) {
                return Err(
                    PhraseError::MissingParticle {
                        particle: Keyword::Pi,
                        position: self.current_word,
                    },
                );
            }
            self.consume();
            self.push_phrase(Phrase::TenpoAlePi);
            return Ok(());
        }
        if self.at_keyword(Keyword::Pi) {
            self.consume();
            self.push_phrase(Phrase::TenpoPi);
            return Ok(());
        }
        Err(PhraseError::UnknownPhrase { position: self.current_word })
    }

    /// Folds the idiom that the `li` at the cursor opens. Does nothing at
    /// any other word.
    pub fn tokenize_li(&mut self) -> (r: Result<(), PhraseError>)
        ensures
            keyword_at(old(self).words(), old(self).position() as int, Keyword::Li) ==> old(
                self,
            ).stepped(final(self), r, phrase_li(old(self).words(), old(self).position() as int)),
            !keyword_at(old(self).words(), old(self).position() as int, Keyword::Li) ==> r is Ok
                && old(self).untouched(final(self)),
    {
        if !self.at_keyword(Keyword::Li) {
            return Ok(());
        }
        self.consume();
        if self.at_keyword(Keyword::Kama) {
            self.consume();
            if !self.at_keyword(Keyword::Sama) {
                return Err(
                    PhraseError::MissingParticle {
                        particle: Keyword::Sama,
                        position: self.current_word,
                    },
                );
            }
            self.consume();
            self.push_phrase(Phrase::LiKamaSama);
            return Ok(());
        }
        if self.at_keyword(Keyword::Kepeken) {
            self.consume();
            self.push_phrase(Phrase::LiKepeken);
            return Ok(());
        }
        if self.at_keyword(Keyword::Pali) {
            self.consume();
            if !self.at_keyword(Keyword::E) {
                return Err(
                    PhraseError::MissingParticle {
                        particle: Keyword::E,
                        position: self.current_word,
                    },
                );
            }
            self.consume();
            if !self.at_keyword(Keyword::Ni) {
                return Err(
                    PhraseError::MissingParticle {
                        particle: Keyword::Ni,
                        position: self.current_word,
                    },
                );
            }
            self.consume();
            self.push_phrase(Phrase::LiPaliENi);
            return Ok(());
        }
        if self.at_keyword(Keyword::Pana) {
            self.consume();
            if !self.at_keyword(Keyword::E) {
                return Err(
                    PhraseError::MissingParticle {
                        particle: Keyword::E,
                        position: self.current_word,
                    },
                );
            }
            self.consume();
            self.push_phrase(Phrase::LiPanaE);
            return Ok(());
        }
        Err(PhraseError::UnknownPhrase { position: self.current_word })
    }

    /// Promotes the punctuation or operator mark at the cursor.
    pub fn tokenize_arithmetics(&mut self)
        requires
            old(self).current() matches Some(WordView::Symbol(_)),
        ensures
            old(self).advanced(
                final(self),
                TokenView::Symbol(old(self).current()->Some_0->Symbol_0),
                1,
            ),
    {
        let symbol = match self.peek() {
            Some(Word::Symbol(symbol)) => *symbol,
            _ => {
                return ;
            },
        };
        self.consume();
        self.push(Token::Symbol(symbol));
    }

    /// Makes the token that starts at the cursor.
    fn tokenize_one(&mut self) -> (r: Result<(), PhraseError>)
        requires
            old(self).position() < old(self).words().len(),
        ensures
            old(self).stepped(final(self), r, phrase_at(old(self).words(), old(self).position() as int)),
    {
        let ghost words = self.words();
        match &self.words[self.current_word] {
            Word::Name(_) => {
                self.tokenize_name();
                Ok(())
            },
            Word::Number(_) => {
                self.tokenize_number();
                Ok(())
            },
            Word::StringLiteral(s) => {
                let text = s.clone();
                self.push(Token::StringLiteral(text));
                proof {
                    self.lemma_words_fit();
                }
                self.consume();
                Ok(())
            },
            Word::OpeningTab(tabs) => {
                let tabs = *tabs;
                self.push(Token::OpeningTab(tabs));
                proof {
                    self.lemma_words_fit();
                }
                self.consume();
                Ok(())
            },
            Word::Symbol(_) => {
                self.tokenize_arithmetics();
                Ok(())
            },
            Word::Keyword(k) => {
                let k = *k;
                match k {
                    Keyword::O => self.tokenize_o(),
                    Keyword::Tenpo => self.tokenize_tenpo(),
                    Keyword::Li => self.tokenize_li(),
                    Keyword::Wan | Keyword::Tu | Keyword::Luka => {
                        self.tokenize_nanpas();
                        Ok(())
                    },
                    Keyword::E
                    | Keyword::En
                    | Keyword::La
                    | Keyword::Pali
                    | Keyword::Nanpa
                    | Keyword::Linja
                    | Keyword::Awen
                    | Keyword::Kepeken
                    | Keyword::A => {
                        self.push(Token::Keyword(k));
                        proof {
                            self.lemma_words_fit();
                        }
                        self.consume();
                        Ok(())
                    },
                    _ => Err(PhraseError::StrayWord { position: self.current_word }),
                }
            },
        }
    }

    /// Folds the words from the cursor on into tokens, appended to those
    /// made so far. Stops at the first fault.
    pub fn tokenize(&mut self) -> (r: Result<(), PhraseError>)
        ensures
            final(self).words() == old(self).words(),
            match tokenize_from(old(self).words(), old(self).position() as int) {
                Ok(tokens) => r is Ok && final(self).tokens() == old(
                    self,
                ).tokens() + tokens && (old(self).position() <= old(self).words().len()
                    ==> final(self).position() == final(self).words().len()),
                Err(e) => r == Err::<(), PhraseError>(e),
            },
    {
        let ghost words = self.words();
        let ghost base = self.tokens();
        let ghost goal = tokenize_from(words, self.current_word as int);
        let ghost mut done: Seq<TokenView> = Seq::empty();
        assert(after(done, goal) == goal);
        while self.current_word < self.words.len()
            invariant
                self.words() == words,
                words == old(self).words(),
                old(self).position() <= words.len() ==> self.current_word <= words.len(),
                self.tokens() == base + done,
                base == old(self).tokens(),
                goal == tokenize_from(words, old(self).position() as int),
                after(done, tokenize_from(words, self.current_word as int)) == goal,
            decreases self.words.len() - self.current_word,
        {
            let ghost before = *self;
            match self.tokenize_one() {
                Ok(()) => {},
                Err(e) => {
                    return Err(e);
                },
            }
            proof {
                lemma_phrase_span(words, before.position() as int);
                let outcome = phrase_at(words, before.position() as int);
                let token = outcome->Ok_0.0;
                lemma_prepend_shift(done, token, tokenize_from(words, self.current_word as int));
                done = done.push(token);
            }
        }
        Ok(())
    }
}

/// Folds words into tokens.
pub fn tokenize(words: Vec<Word>) -> (r: Result<Vec<Token>, PhraseError>)
    ensures
        tokenized_as(r, tokenize_spec(words_view(words@))),
{
    let mut abstracter = Abstracter::new(words);
    match abstracter.tokenize() {
        Ok(()) => Ok(abstracter.into_tokens()),
        Err(e) => Err(e),
    }
}

} // verus!
