use asen::abstracter::{tokenize, Abstracter};
use asen::error::PhraseError;
use asen::lexer::lex;
use asen::token::{Phrase, Token};
use asen::word::{Keyword, Symbol, Word};

fn tokens(source: &str) -> Result<Vec<Token>, PhraseError> {
    tokenize(lex(source).unwrap())
}

fn name(text: &str) -> Token {
    Token::Name(text.to_string())
}

fn number(text: &str) -> Token {
    Token::Number(text.to_string())
}

#[test]
fn every_idiom_folds_into_one_phrase() {
    let cases = vec![
        ("o tawa", Phrase::OTawa),
        ("o sin e", Phrase::OSin),
        ("o weka", Phrase::OWeka),
        ("o pini", Phrase::OPini),
        ("tenpo pi", Phrase::TenpoPi),
        ("tenpo ale pi", Phrase::TenpoAlePi),
        ("li kama sama", Phrase::LiKamaSama),
        ("li kepeken", Phrase::LiKepeken),
        ("li pali e ni", Phrase::LiPaliENi),
        ("li pana e", Phrase::LiPanaE),
    ];
    for (source, phrase) in cases {
        assert_eq!(tokens(source), Ok(vec![Token::Phrase(phrase)]), "{}", source);
    }
}

#[test]
fn call_introducer_leaves_the_identifier() {
    assert_eq!(tokens("o add"), Ok(vec![Token::Phrase(Phrase::O), name("add")]));
}

#[test]
fn o_weka_leaves_the_e_for_the_parser() {
    assert_eq!(
        tokens("o weka e x"),
        Ok(vec![Token::Phrase(Phrase::OWeka), Token::Keyword(Keyword::E), name("x")])
    );
}

#[test]
fn idioms_fold_in_the_middle_of_other_tokens() {
    assert_eq!(
        tokens("x li kama sama tu tu o tawa x."),
        Ok(vec![
            name("x"),
            Token::Phrase(Phrase::LiKamaSama),
            number("4"),
            Token::Phrase(Phrase::OTawa),
            name("x"),
            Token::Symbol(Symbol::Period),
        ])
    );
}

#[test]
fn standalone_keywords_pass_through() {
    let alone = vec![
        ("e", Keyword::E),
        ("en", Keyword::En),
        ("la", Keyword::La),
        ("pali", Keyword::Pali),
        ("nanpa", Keyword::Nanpa),
        ("linja", Keyword::Linja),
        ("awen", Keyword::Awen),
        ("kepeken", Keyword::Kepeken),
        ("a", Keyword::A),
    ];
    for (source, keyword) in alone {
        assert_eq!(tokens(source), Ok(vec![Token::Keyword(keyword)]), "{}", source);
    }
}

#[test]
fn punctuation_passes_through() {
    let expected = vec![
        Symbol::Semicolon,
        Symbol::OpenParenthesis,
        Symbol::CloseParenthesis,
        Symbol::Comma,
        Symbol::Colon,
        Symbol::Equals,
        Symbol::LessThan,
        Symbol::GreaterThan,
        Symbol::Plus,
        Symbol::Minus,
        Symbol::Star,
        Symbol::Period,
        Symbol::ForwardSlash,
    ];
    assert_eq!(
        tokens(";(),:=<>+-*./"),
        Ok(expected.into_iter().map(Token::Symbol).collect::<Vec<_>>())
    );
}

#[test]
fn words_with_text_are_promoted() {
    assert_eq!(
        tokens("\tx 12 \"hi\""),
        Ok(vec![
            Token::OpeningTab(1),
            name("x"),
            number("12"),
            Token::StringLiteral("hi".to_string()),
        ])
    );
}

#[test]
fn unit_numerals_sum_into_one_number() {
    assert_eq!(tokens("wan"), Ok(vec![number("1")]));
    assert_eq!(tokens("tu"), Ok(vec![number("2")]));
    assert_eq!(tokens("luka"), Ok(vec![number("5")]));
    assert_eq!(tokens("wan luka"), Ok(vec![number("6")]));
    assert_eq!(tokens("luka luka luka tu wan"), Ok(vec![number("18")]));
    assert_eq!(tokens("tu wan tu"), Ok(vec![number("5")]));
}

#[test]
fn numeral_runs_stop_at_other_words() {
    assert_eq!(
        tokens("wan + tu tu 3 luka"),
        Ok(vec![
            number("1"),
            Token::Symbol(Symbol::Plus),
            number("4"),
            number("3"),
            number("5"),
        ])
    );
}

#[test]
fn long_numeral_run_sums_every_word() {
    let source = vec!["luka"; 200].join(" ");
    assert_eq!(tokens(&source), Ok(vec![number("1000")]));
}

#[test]
fn idiom_cut_short_names_the_missing_particle() {
    let cases = vec![
        ("o sin", Keyword::E, 2),
        ("o sin nanpa x", Keyword::E, 2),
        ("tenpo ale", Keyword::Pi, 2),
        ("li kama", Keyword::Sama, 2),
        ("li kama x", Keyword::Sama, 2),
        ("li pali", Keyword::E, 2),
        ("li pali e", Keyword::Ni, 3),
        ("li pana", Keyword::E, 2),
        ("x li pana x", Keyword::E, 3),
    ];
    for (source, particle, position) in cases {
        assert_eq!(
            tokens(source),
            Err(PhraseError::MissingParticle { particle, position }),
            "{}",
            source
        );
    }
}

#[test]
fn unknown_continuation_is_an_unknown_phrase() {
    for source in ["o", "o wan", "o e", "tenpo", "tenpo x", "li", "li x", "li e"] {
        assert_eq!(tokens(source), Err(PhraseError::UnknownPhrase { position: 1 }), "{}", source);
    }
    assert_eq!(tokens("x x li la"), Err(PhraseError::UnknownPhrase { position: 3 }));
}

#[test]
fn particles_of_idioms_do_not_stand_alone() {
    for source in ["tawa", "sin", "weka", "pini", "pi", "ale", "kama", "sama", "ni", "pana"] {
        assert_eq!(tokens(source), Err(PhraseError::StrayWord { position: 0 }), "{}", source);
    }
    assert_eq!(tokens("x ni"), Err(PhraseError::StrayWord { position: 1 }));
    // after a whole idiom a further particle is stray
    assert_eq!(tokens("li pali e ni pana e"), Err(PhraseError::StrayWord { position: 4 }));
}

#[test]
fn no_words_give_no_tokens() {
    assert_eq!(tokenize(vec![]), Ok(vec![]));
}

#[test]
fn tokens_hold_no_raw_idiom_parts() {
    let source = "pali add li pana e nanpa li kepeken nanpa a en nanpa b li pali e ni: o weka e a + b. o pini. o add e wan a";
    let tokens = tokens(source).unwrap();
    for (i, token) in tokens.iter().enumerate() {
        if let Token::Keyword(k) = token {
            assert!(matches!(
                k,
                Keyword::E
                    | Keyword::En
                    | Keyword::La
                    | Keyword::Pali
                    | Keyword::Nanpa
                    | Keyword::Linja
                    | Keyword::Awen
                    | Keyword::Kepeken
                    | Keyword::A
            ));
        }
        if *token == Token::Phrase(Phrase::O) {
            assert!(matches!(tokens[i + 1], Token::Name(_)));
        }
    }
}

#[test]
fn cursor_steps_over_words() {
    let words = vec![Word::Keyword(Keyword::Wan), Word::Name("x".to_string())];
    let mut abstracter = Abstracter::new(words);
    assert_eq!(abstracter.peek(), Some(&Word::Keyword(Keyword::Wan)));
    assert!(abstracter.expect(Word::Keyword(Keyword::Wan)));
    assert!(!abstracter.expect(Word::Keyword(Keyword::Tu)));
    assert!(!abstracter.expect(Word::Name(String::new())));
    abstracter.consume();
    assert_eq!(abstracter.peek(), Some(&Word::Name("x".to_string())));
    assert!(abstracter.expect(Word::Name(String::new())));
    abstracter.consume();
    assert_eq!(abstracter.peek(), None);
    assert!(!abstracter.expect(Word::Name(String::new())));
    abstracter.unconsume();
    assert_eq!(abstracter.peek(), Some(&Word::Name("x".to_string())));
    abstracter.push(Token::Keyword(Keyword::A));
    assert_eq!(abstracter.into_tokens(), vec![Token::Keyword(Keyword::A)]);
}

#[test]
fn is_number_tells_unit_numerals() {
    assert!(Abstracter::is_number(&Word::Keyword(Keyword::Wan)));
    assert!(Abstracter::is_number(&Word::Keyword(Keyword::Tu)));
    assert!(Abstracter::is_number(&Word::Keyword(Keyword::Luka)));
    assert!(!Abstracter::is_number(&Word::Keyword(Keyword::Ale)));
    assert!(!Abstracter::is_number(&Word::Number("1".to_string())));
}

#[test]
fn single_steps_make_single_tokens() {
    let mut abstracter = Abstracter::new(lex("x 7 + o sin e tenpo pi li kepeken wan tu").unwrap());
    abstracter.tokenize_number();
    abstracter.tokenize_name();
    abstracter.tokenize_name();
    abstracter.tokenize_number();
    abstracter.tokenize_arithmetics();
    assert_eq!(abstracter.tokenize_o(), Ok(()));
    assert_eq!(abstracter.tokenize_tenpo(), Ok(()));
    assert_eq!(abstracter.tokenize_li(), Ok(()));
    abstracter.tokenize_nanpas();
    assert_eq!(abstracter.peek(), None);
    assert_eq!(
        abstracter.into_tokens(),
        vec![
            name("x"),
            number("7"),
            Token::Symbol(Symbol::Plus),
            Token::Phrase(Phrase::OSin),
            Token::Phrase(Phrase::TenpoPi),
            Token::Phrase(Phrase::LiKepeken),
            number("3"),
        ]
    );
}

#[test]
fn tokenize_appends_to_the_tokens_made_so_far() {
    let mut abstracter = Abstracter::new(lex("x o tawa wan").unwrap());
    abstracter.tokenize_name();
    assert_eq!(abstracter.tokenize(), Ok(()));
    assert_eq!(
        abstracter.into_tokens(),
        vec![name("x"), Token::Phrase(Phrase::OTawa), number("1")]
    );
}

#[test]
fn numeral_step_at_another_word_gives_zero() {
    let mut abstracter = Abstracter::new(lex("x").unwrap());
    abstracter.tokenize_nanpas();
    assert_eq!(abstracter.peek(), Some(&Word::Name("x".to_string())));
    assert_eq!(abstracter.into_tokens(), vec![number("0")]);
}

#[test]
fn tokenize_leaves_the_cursor_at_the_end() {
    let mut abstracter = Abstracter::new(lex("o tawa wan luka.").unwrap());
    assert_eq!(abstracter.tokenize(), Ok(()));
    assert_eq!(abstracter.peek(), None);
    abstracter.unconsume();
    assert_eq!(abstracter.peek(), Some(&Word::Symbol(Symbol::Period)));
}

#[test]
fn cursor_steps_past_the_last_word() {
    let mut abstracter = Abstracter::new(vec![Word::Keyword(Keyword::Wan)]);
    abstracter.consume();
    abstracter.consume();
    assert_eq!(abstracter.peek(), None);
    assert!(!abstracter.expect(Word::Keyword(Keyword::Wan)));
    abstracter.unconsume();
    assert_eq!(abstracter.peek(), None);
    abstracter.unconsume();
    assert_eq!(abstracter.peek(), Some(&Word::Keyword(Keyword::Wan)));
}

#[test]
fn idiom_steps_do_nothing_at_other_words() {
    let mut abstracter = Abstracter::new(lex("x li kepeken").unwrap());
    assert_eq!(abstracter.tokenize_tenpo(), Ok(()));
    assert_eq!(abstracter.tokenize_li(), Ok(()));
    assert_eq!(abstracter.peek(), Some(&Word::Name("x".to_string())));
    abstracter.consume();
    assert_eq!(abstracter.tokenize_tenpo(), Ok(()));
    assert_eq!(abstracter.tokenize_li(), Ok(()));
    assert_eq!(abstracter.peek(), None);
    assert_eq!(abstracter.tokenize_li(), Ok(()));
    assert_eq!(abstracter.into_tokens(), vec![Token::Phrase(Phrase::LiKepeken)]);
}
