use asen::error::LexError;
use asen::lexer::{lex, Lexer};
use asen::word::{Keyword, Symbol, Word};

fn name(text: &str) -> Word {
    Word::Name(text.to_string())
}

#[test]
fn lexes_keywords_and_numerals() {
    let words = lex("o tawa wan luka.").unwrap();
    assert_eq!(
        words,
        vec![
            Word::Keyword(Keyword::O),
            Word::Keyword(Keyword::Tawa),
            Word::Keyword(Keyword::Wan),
            Word::Keyword(Keyword::Luka),
            Word::Symbol(Symbol::Period),
        ]
    );
}

#[test]
fn lexes_every_keyword() {
    let source = "a ale awen e en kama kepeken la li linja luka nanpa ni o pali pana pi pini sama sin tawa tenpo tu wan weka";
    let expected = vec![
        Keyword::A,
        Keyword::Ale,
        Keyword::Awen,
        Keyword::E,
        Keyword::En,
        Keyword::Kama,
        Keyword::Kepeken,
        Keyword::La,
        Keyword::Li,
        Keyword::Linja,
        Keyword::Luka,
        Keyword::Nanpa,
        Keyword::Ni,
        Keyword::O,
        Keyword::Pali,
        Keyword::Pana,
        Keyword::Pi,
        Keyword::Pini,
        Keyword::Sama,
        Keyword::Sin,
        Keyword::Tawa,
        Keyword::Tenpo,
        Keyword::Tu,
        Keyword::Wan,
        Keyword::Weka,
    ];
    let words = lex(source).unwrap();
    assert_eq!(words, expected.into_iter().map(Word::Keyword).collect::<Vec<_>>());
}

#[test]
fn lexes_every_symbol() {
    let words = lex(";(),:=<>+-*./").unwrap();
    let expected = vec![
        Symbol::Semicolon,
        Symbol::OpenParenthesis,
        Symbol::CloseParenthesis,
        Symbol::Comma,
        Symbol::Colon,
        Symbol::Equals,
        Symbol::LessThan,
        Symbol::GreaterThan,
        Symbol::Plus,
        Symbol::Minus,
        Symbol::Star,
        Symbol::Period,
        Symbol::ForwardSlash,
    ];
    assert_eq!(words, expected.into_iter().map(Word::Symbol).collect::<Vec<_>>());
}

#[test]
fn identifiers_are_names() {
    let words = lex("sitelen x_1 _y Pali olin").unwrap();
    assert_eq!(words, vec![name("sitelen"), name("x_1"), name("_y"), name("Pali"), name("olin")]);
}

#[test]
fn numbers_run_over_letters_and_digits() {
    let words = lex("12 3ab 4_5").unwrap();
    assert_eq!(
        words,
        vec![
            Word::Number("12".to_string()),
            Word::Number("3ab".to_string()),
            Word::Number("4".to_string()),
            name("_5"),
        ]
    );
}

#[test]
fn string_literal_runs_to_the_closing_quote() {
    let words = lex("wan + \"hi #1\" x").unwrap();
    assert_eq!(
        words,
        vec![
            Word::Keyword(Keyword::Wan),
            Word::Symbol(Symbol::Plus),
            Word::StringLiteral("hi #1".to_string()),
            name("x"),
        ]
    );
}

#[test]
fn unclosed_string_literal_runs_to_the_end() {
    let words = lex("\"abc").unwrap();
    assert_eq!(words, vec![Word::StringLiteral("abc".to_string())]);
    let words = lex("\"").unwrap();
    assert_eq!(words, vec![Word::StringLiteral(String::new())]);
}

#[test]
fn tabs_count_only_at_line_start() {
    let words = lex("\t\to\n\tx\ty \t\n\t").unwrap();
    assert_eq!(
        words,
        vec![
            Word::OpeningTab(2),
            Word::Keyword(Keyword::O),
            Word::OpeningTab(1),
            name("x"),
            name("y"),
            Word::OpeningTab(1),
        ]
    );
}

#[test]
fn empty_source_has_no_words() {
    assert_eq!(lex("").unwrap(), vec![]);
    assert_eq!(lex(" \r\n \x0b\x0c").unwrap(), vec![]);
}

#[test]
fn unknown_character_is_reported_with_its_position() {
    assert_eq!(lex("o tawa #"), Err(LexError { character: '#', position: 7 }));
    assert_eq!(lex("x {"), Err(LexError { character: '{', position: 2 }));
}

#[test]
fn characters_outside_ascii_are_not_recognized() {
    assert_eq!(lex("a \u{e9}"), Err(LexError { character: '\u{e9}', position: 2 }));
    // position counts characters, not bytes
    assert_eq!(lex("\"\u{e9}\" ~"), Err(LexError { character: '~', position: 4 }));
}

#[test]
fn recognized_characters_always_lex() {
    let source = "abc XYZ 019 _ \" ;(),:=<>+-*./ \t\n";
    assert!(lex(source).is_ok());
}

#[test]
fn lexer_cursor_steps_through_the_source() {
    let mut lexer = Lexer::new("ab");
    assert_eq!(lexer.peek(), Some('a'));
    lexer.consume();
    assert_eq!(lexer.peek(), Some('b'));
    lexer.consume();
    assert_eq!(lexer.peek(), None);
    assert_eq!(lexer.lex(), Ok(vec![]));
}

#[test]
fn lexer_lexes_from_its_cursor() {
    let mut lexer = Lexer::new("x y");
    lexer.consume();
    assert_eq!(lexer.lex(), Ok(vec![name("y")]));
}

#[test]
fn unrecognized_characters_count_only_outside_string_literals() {
    assert!(lex("\"#\"").is_ok());
    assert!(lex("x \"{~}\" y \"!").is_ok());
    assert_eq!(lex("\"#\"#"), Err(LexError { character: '#', position: 3 }));
    assert_eq!(lex("\"a\" \"b\" !"), Err(LexError { character: '!', position: 8 }));
}

#[test]
fn lexer_cursor_steps_past_the_end() {
    let mut lexer = Lexer::new("a");
    lexer.consume();
    lexer.consume();
    lexer.consume();
    assert_eq!(lexer.peek(), None);
    assert_eq!(lexer.lex(), Ok(vec![]));
}
