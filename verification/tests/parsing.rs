use asen::abstracter::tokenize;
use asen::ast::{
    BinaryExpression, Expression, LiKamaSamaStatement, LinjaExpression, NanpaExpression,
    NimiExpression, Node, OExpression, OSinStatement, OWekaStatement, OtawaStatement,
    PaliDeclaration, PaliStatement, Parenthesis, TenpoStatement, UnaryExpression,
};
use asen::error::ParseError;
use asen::lexer::lex;
use asen::parser::{operator_for, parse, Parser};
use asen::precedence::BinaryExpressionType::{
    Add, Divide, Equals, GreaterThan, LessThan, Multiply, Subtract,
};
use asen::precedence::{get_precedence, BinaryExpressionType, Precedence};
use asen::token::{Phrase, Token};
use asen::word::{Keyword, Symbol};

fn tokens(source: &str) -> Vec<Token> {
    tokenize(lex(source).unwrap()).unwrap()
}

fn nodes(source: &str) -> Result<Vec<Node>, ParseError> {
    parse(tokens(source))
}

fn nimi(name: &str) -> NimiExpression {
    NimiExpression { value: name.to_string() }
}

fn num(value: i64) -> Expression {
    Expression::Unary(UnaryExpression::Nanpa(NanpaExpression { value }))
}

fn var(name: &str) -> Expression {
    Expression::Unary(UnaryExpression::Nimi(nimi(name)))
}

fn text(value: &str) -> Expression {
    Expression::Unary(UnaryExpression::Linja(LinjaExpression { value: value.to_string() }))
}

fn call(name: &str, params: Vec<Expression>) -> OExpression {
    OExpression { nimi: nimi(name), params }
}

fn bin(kind: BinaryExpressionType, lhs: Expression, rhs: Expression) -> Expression {
    Expression::Binary(BinaryExpression { lhs: Box::new(lhs), rhs: Box::new(rhs), kind })
}

fn exit(expr: Expression) -> Node {
    Node::Otawa(OtawaStatement { expr })
}

fn ret(expr: Option<Expression>) -> Node {
    Node::OWeka(OWekaStatement { expr })
}

fn expression(source: &str) -> Expression {
    match nodes(&format!("o tawa {source}")).unwrap().pop().unwrap() {
        Node::Otawa(statement) => statement.expr,
        _ => unreachable!(),
    }
}

#[test]
fn precedence_ladder_climbs_and_saturates() {
    assert_eq!(Precedence::Undefined.next(), Precedence::Comparing);
    assert_eq!(Precedence::Comparing.next(), Precedence::Linear);
    assert_eq!(Precedence::Linear.next(), Precedence::Scaling);
    assert_eq!(Precedence::Scaling.next(), Precedence::Unary);
    assert_eq!(Precedence::Unary.next(), Precedence::TheBiggest);
    assert_eq!(Precedence::TheBiggest.next(), Precedence::TheBiggest);
    assert_eq!(Precedence::Undefined.level(), 0);
    assert_eq!(Precedence::TheBiggest.level(), 5);
    assert!(Precedence::Comparing.below(&Precedence::Linear));
    assert!(!Precedence::Linear.below(&Precedence::Linear));
    assert!(!Precedence::Scaling.below(&Precedence::Linear));
}

#[test]
fn operators_have_their_precedence() {
    assert_eq!(get_precedence(BinaryExpressionType::Add), Precedence::Linear);
    assert_eq!(get_precedence(BinaryExpressionType::Subtract), Precedence::Linear);
    assert_eq!(get_precedence(BinaryExpressionType::Multiply), Precedence::Scaling);
    assert_eq!(get_precedence(BinaryExpressionType::Divide), Precedence::Scaling);
    assert_eq!(get_precedence(BinaryExpressionType::GreaterThan), Precedence::Comparing);
    assert_eq!(get_precedence(BinaryExpressionType::LessThan), Precedence::Comparing);
    assert_eq!(get_precedence(BinaryExpressionType::Equals), Precedence::Comparing);
}

#[test]
fn operator_tokens_are_recognized() {
    assert_eq!(operator_for(&Token::Symbol(Symbol::Plus)), Some(BinaryExpressionType::Add));
    assert_eq!(operator_for(&Token::Symbol(Symbol::Minus)), Some(BinaryExpressionType::Subtract));
    assert_eq!(operator_for(&Token::Symbol(Symbol::Star)), Some(BinaryExpressionType::Multiply));
    assert_eq!(
        operator_for(&Token::Symbol(Symbol::ForwardSlash)),
        Some(BinaryExpressionType::Divide)
    );
    assert_eq!(
        operator_for(&Token::Symbol(Symbol::GreaterThan)),
        Some(BinaryExpressionType::GreaterThan)
    );
    assert_eq!(operator_for(&Token::Symbol(Symbol::LessThan)), Some(BinaryExpressionType::LessThan));
    assert_eq!(operator_for(&Token::Symbol(Symbol::Equals)), Some(BinaryExpressionType::Equals));
    assert_eq!(operator_for(&Token::Symbol(Symbol::Period)), None);
    assert_eq!(operator_for(&Token::Keyword(Keyword::E)), None);
}

#[test]
fn unary_expressions() {
    assert_eq!(expression("wan luka"), num(6));
    assert_eq!(expression("42"), num(42));
    assert_eq!(expression("x"), var("x"));
    assert_eq!(expression("a"), var("a"));
    assert_eq!(expression("\"hi\""), text("hi"));
    assert_eq!(
        expression("o f a"),
        Expression::Unary(UnaryExpression::O(call("f", vec![])))
    );
}

#[test]
fn scaling_binds_tighter_than_linear() {
    assert_eq!(expression("wan + tu * luka"), bin(Add, num(1), bin(Multiply, num(2), num(5))));
    assert_eq!(expression("wan * tu + luka"), bin(Add, bin(Multiply, num(1), num(2)), num(5)));
    assert_eq!(expression("x - y / z"), bin(Subtract, var("x"), bin(Divide, var("y"), var("z"))));
}

#[test]
fn comparing_binds_loosest() {
    assert_eq!(expression("x = tu + tu"), bin(Equals, var("x"), bin(Add, num(2), num(2))));
    assert_eq!(expression("wan + tu = luka"), bin(Equals, bin(Add, num(1), num(2)), num(5)));
    assert_eq!(
        expression("x < y * z"),
        bin(LessThan, var("x"), bin(Multiply, var("y"), var("z")))
    );
    assert_eq!(expression("x > y"), bin(GreaterThan, var("x"), var("y")));
}

#[test]
fn operators_of_one_precedence_group_to_the_left() {
    assert_eq!(
        expression("wan - tu - luka"),
        bin(Subtract, bin(Subtract, num(1), num(2)), num(5))
    );
    assert_eq!(expression("x - y + z"), bin(Add, bin(Subtract, var("x"), var("y")), var("z")));
    assert_eq!(
        expression("x / y * z"),
        bin(Multiply, bin(Divide, var("x"), var("y")), var("z"))
    );
    assert_eq!(expression("x = y = z"), bin(Equals, bin(Equals, var("x"), var("y")), var("z")));
}

#[test]
fn minimum_precedence_stops_the_climb() {
    let mut parser = Parser::new(tokens("wan * tu + luka"));
    let parsed = parser.parse_expression(Precedence::Scaling).unwrap();
    assert_eq!(parsed, bin(BinaryExpressionType::Multiply, num(1), num(2)));
    assert_eq!(parser.peek(), Some(&Token::Symbol(Symbol::Plus)));
}

#[test]
fn call_arguments_stay_in_source_order() {
    assert_eq!(
        expression("o add e tu e luka a"),
        Expression::Unary(UnaryExpression::O(call("add", vec![num(2), num(5)])))
    );
    assert_eq!(
        expression("o f e x + wan e o g e a a a"),
        Expression::Unary(UnaryExpression::O(call(
            "f",
            vec![
                bin(BinaryExpressionType::Add, var("x"), num(1)),
                Expression::Unary(UnaryExpression::O(call("g", vec![var("a")]))),
            ]
        )))
    );
}

#[test]
fn statements_of_every_kind() {
    assert_eq!(nodes("o tawa wan."), Ok(vec![exit(num(1))]));
    assert_eq!(
        nodes("o sin e nanpa x"),
        Ok(vec![Node::OSin(OSinStatement { var_type: "nanpa".to_string(), name: nimi("x") })])
    );
    assert_eq!(
        nodes("o sin e linja s"),
        Ok(vec![Node::OSin(OSinStatement { var_type: "linja".to_string(), name: nimi("s") })])
    );
    assert_eq!(
        nodes("x li kama sama tu tu"),
        Ok(vec![Node::LiKamaSama(LiKamaSamaStatement { nimi: nimi("x"), expression: num(4) })])
    );
    assert_eq!(nodes("o weka"), Ok(vec![ret(None)]));
    assert_eq!(nodes("o weka e x"), Ok(vec![ret(Some(var("x")))]));
    assert_eq!(nodes("o f e wan a"), Ok(vec![Node::O(call("f", vec![num(1)]))]));
    assert_eq!(
        nodes("( o tawa wan. o weka )"),
        Ok(vec![Node::Parenthesis(Parenthesis { nodes: vec![exit(num(1)), ret(None)] })])
    );
    assert_eq!(
        nodes("tenpo pi x = luka la o tawa wan. o pini."),
        Ok(vec![Node::Tenpo(TenpoStatement {
            expr: bin(BinaryExpressionType::Equals, var("x"), num(5)),
            nodes: vec![exit(num(1))],
        })])
    );
}

#[test]
fn blocks_may_be_empty_and_nest() {
    assert_eq!(nodes("()"), Ok(vec![Node::Parenthesis(Parenthesis { nodes: vec![] })]));
    assert_eq!(
        nodes("tenpo pi x la o pini"),
        Ok(vec![Node::Tenpo(TenpoStatement { expr: var("x"), nodes: vec![] })])
    );
    assert_eq!(
        nodes("( ( o weka ) )"),
        Ok(vec![Node::Parenthesis(Parenthesis {
            nodes: vec![Node::Parenthesis(Parenthesis { nodes: vec![ret(None)] })]
        })])
    );
}

#[test]
fn separators_between_statements_are_passed_over() {
    assert_eq!(nodes(""), Ok(vec![]));
    assert_eq!(nodes(". : ."), Ok(vec![]));
    assert_eq!(nodes("\to weka.\n\t\to weka:"), Ok(vec![ret(None), ret(None)]));
}

#[test]
fn function_definition_with_signature_in_either_order() {
    let expected = Node::Pali(PaliStatement {
        nimi: nimi("add"),
        params: vec![("nanpa".to_string(), nimi("a")), ("nanpa".to_string(), nimi("b"))],
        nodes: vec![ret(Some(bin(BinaryExpressionType::Add, var("a"), var("b"))))],
        retval: Some("nanpa".to_string()),
    });
    assert_eq!(
        nodes("pali add li pana e nanpa li kepeken nanpa a en nanpa b li pali e ni: o weka e a + b. o pini."),
        Ok(vec![expected])
    );
    let expected = Node::Pali(PaliStatement {
        nimi: nimi("add"),
        params: vec![("nanpa".to_string(), nimi("a")), ("nanpa".to_string(), nimi("b"))],
        nodes: vec![ret(Some(bin(BinaryExpressionType::Add, var("a"), var("b"))))],
        retval: Some("nanpa".to_string()),
    });
    assert_eq!(
        nodes("pali add li kepeken nanpa a en nanpa b li pana e nanpa li pali e ni: o weka e a + b. o pini."),
        Ok(vec![expected])
    );
}

#[test]
fn function_body_gets_a_final_return() {
    assert_eq!(
        nodes("pali wawa li pali e ni: o tawa tu. o pini."),
        Ok(vec![Node::Pali(PaliStatement {
            nimi: nimi("wawa"),
            params: vec![],
            nodes: vec![exit(num(2)), ret(None)],
            retval: None,
        })])
    );
    assert_eq!(
        nodes("pali f li pali e ni o pini"),
        Ok(vec![Node::Pali(PaliStatement {
            nimi: nimi("f"),
            params: vec![],
            nodes: vec![ret(None)],
            retval: None,
        })])
    );
    // a return that is not the last statement does not count
    assert_eq!(
        nodes("pali f li pali e ni: o weka. o tawa wan. o pini"),
        Ok(vec![Node::Pali(PaliStatement {
            nimi: nimi("f"),
            params: vec![],
            nodes: vec![ret(None), exit(num(1)), ret(None)],
            retval: None,
        })])
    );
    // a last statement that returns is left alone
    assert_eq!(
        nodes("pali f li pali e ni: o weka e wan. o pini"),
        Ok(vec![Node::Pali(PaliStatement {
            nimi: nimi("f"),
            params: vec![],
            nodes: vec![ret(Some(num(1)))],
            retval: None,
        })])
    );
}

#[test]
fn function_without_body_is_an_external_declaration() {
    assert_eq!(
        nodes("pali sitelen li kepeken nanpa c a."),
        Ok(vec![Node::PaliDeclaration(PaliDeclaration {
            nimi: nimi("sitelen"),
            params: vec![("nanpa".to_string(), nimi("c"))],
            retval: None,
        })])
    );
    assert_eq!(
        nodes("pali f li pana e nanpa pali g"),
        Ok(vec![
            Node::PaliDeclaration(PaliDeclaration {
                nimi: nimi("f"),
                params: vec![],
                retval: Some("nanpa".to_string()),
            }),
            Node::PaliDeclaration(PaliDeclaration { nimi: nimi("g"), params: vec![], retval: None }),
        ])
    );
}

#[test]
fn second_return_type_does_not_belong_to_the_signature() {
    assert_eq!(
        nodes("pali f li pana e nanpa li pana e nanpa"),
        Err(ParseError::UnexpectedToken { position: 4 })
    );
}

#[test]
fn parse_errors_name_the_position() {
    assert_eq!(nodes("la"), Err(ParseError::UnexpectedToken { position: 0 }));
    assert_eq!(nodes("o weka. en"), Err(ParseError::UnexpectedToken { position: 2 }));
    assert_eq!(nodes("tenpo ale pi x"), Err(ParseError::UnexpectedToken { position: 0 }));
    assert_eq!(nodes("kepeken \"x\""), Err(ParseError::UnexpectedToken { position: 0 }));
    assert_eq!(nodes("o tawa ."), Err(ParseError::ExpectedExpression { position: 1 }));
    assert_eq!(nodes("o tawa"), Err(ParseError::ExpectedExpression { position: 1 }));
    assert_eq!(nodes("o tawa wan +"), Err(ParseError::ExpectedExpression { position: 3 }));
    assert_eq!(nodes("o sin e nanpa ."), Err(ParseError::ExpectedName { position: 2 }));
    assert_eq!(nodes("pali"), Err(ParseError::ExpectedName { position: 1 }));
    assert_eq!(nodes("o sin e x"), Err(ParseError::ExpectedType { position: 1 }));
    assert_eq!(nodes("pali f li pana e x"), Err(ParseError::ExpectedType { position: 3 }));
    assert_eq!(nodes("pali f li kepeken x"), Err(ParseError::ExpectedType { position: 3 }));
    assert_eq!(nodes("o tawa 12ab"), Err(ParseError::InvalidNumber { position: 1 }));
    assert_eq!(nodes("tenpo pi wan o pini"), Err(ParseError::MissingLa { position: 2 }));
    assert_eq!(nodes("o f e wan."), Err(ParseError::MissingA { position: 4 }));
    assert_eq!(nodes("o f ."), Err(ParseError::MissingA { position: 2 }));
    assert_eq!(nodes("x wan"), Err(ParseError::MissingAssignment { position: 1 }));
    assert_eq!(nodes("x"), Err(ParseError::MissingAssignment { position: 1 }));
    assert_eq!(
        nodes("tenpo pi wan la o tawa wan"),
        Err(ParseError::MissingTerminator { position: 5 })
    );
    assert_eq!(nodes("( o tawa wan"), Err(ParseError::MissingTerminator { position: 3 }));
    assert_eq!(
        nodes("pali f li pali e ni: o weka."),
        Err(ParseError::MissingTerminator { position: 6 })
    );
    assert_eq!(nodes("o sin e nanpa awen x"), Err(ParseError::ConstantType { position: 2 }));
}

#[test]
fn numbers_must_fit_sixty_four_bits() {
    assert_eq!(expression("9223372036854775807"), num(i64::MAX));
    assert_eq!(expression("007"), num(7));
    assert_eq!(
        nodes("o tawa 9223372036854775808"),
        Err(ParseError::InvalidNumber { position: 1 })
    );
    assert_eq!(
        nodes("o tawa 99999999999999999999999999"),
        Err(ParseError::InvalidNumber { position: 1 })
    );
}

#[test]
fn stray_idiom_particles_are_refused() {
    let raw = vec![Token::Keyword(Keyword::O), Token::Keyword(Keyword::Tawa), Token::Number("1".to_string())];
    assert_eq!(parse(raw), Err(ParseError::UnexpectedToken { position: 0 }));
    let raw = vec![
        Token::Phrase(Phrase::OTawa),
        Token::Number("1".to_string()),
        Token::Keyword(Keyword::Li),
    ];
    assert_eq!(parse(raw), Err(ParseError::UnexpectedToken { position: 2 }));
}

#[test]
fn parser_cursor_and_single_rules() {
    let mut parser = Parser::new(tokens("7 x nanpa o weka"));
    assert_eq!(parser.peek(), Some(&Token::Number("7".to_string())));
    assert!(parser.expect(Token::Number(String::new())));
    assert!(!parser.expect(Token::Name(String::new())));
    assert_eq!(parser.parse_nimi_expression(), Err(ParseError::ExpectedName { position: 0 }));
    assert_eq!(parser.parse_nanpa_expression(), Ok(NanpaExpression { value: 7 }));
    assert_eq!(parser.parse_nanpa_expression(), Err(ParseError::ExpectedNumber { position: 1 }));
    assert_eq!(parser.parse_type(), Err(ParseError::ExpectedType { position: 1 }));
    assert_eq!(parser.parse_nimi_expression(), Ok(nimi("x")));
    assert_eq!(parser.parse_type(), Ok("nanpa".to_string()));
    assert_eq!(parser.parse_otawa(), Err(ParseError::UnexpectedToken { position: 3 }));
    assert_eq!(parser.parse_o_sin(), Err(ParseError::UnexpectedToken { position: 3 }));
    assert_eq!(parser.parse_tenpo(), Err(ParseError::UnexpectedToken { position: 3 }));
    assert_eq!(parser.parse_parenthesis(), Err(ParseError::UnexpectedToken { position: 3 }));
    assert_eq!(parser.parse_pali(), Err(ParseError::UnexpectedToken { position: 3 }));
    assert_eq!(parser.parse_o(), Err(ParseError::ExpectedExpression { position: 3 }));
    assert_eq!(parser.parse_o_weka(), Ok(OWekaStatement { expr: None }));
    assert_eq!(parser.peek(), None);
    assert!(!parser.expect(Token::Number(String::new())));
    assert_eq!(parser.parse_o_weka(), Err(ParseError::UnexpectedToken { position: 4 }));
    assert_eq!(parser.parse_statement(), Err(ParseError::UnexpectedToken { position: 4 }));
}

#[test]
fn parser_collects_statements() {
    let mut parser = Parser::new(tokens("o weka. o tawa wan"));
    parser.consume();
    assert_eq!(parser.parse(), Ok(()));
    assert_eq!(parser.into_nodes(), vec![exit(num(1))]);
    let mut parser = Parser::new(tokens("o weka. la"));
    assert_eq!(parser.parse(), Err(ParseError::UnexpectedToken { position: 2 }));
    assert_eq!(parser.into_nodes(), vec![]);
}

#[test]
fn parser_reads_single_statements() {
    let mut parser = Parser::new(tokens("x li kama sama wan o tawa x"));
    assert_eq!(
        parser.parse_li_kama_sama(),
        Ok(LiKamaSamaStatement { nimi: nimi("x"), expression: num(1) })
    );
    assert_eq!(parser.parse_unary_expression(), Err(ParseError::ExpectedExpression { position: 3 }));
    assert_eq!(parser.parse_statement(), Ok(exit(var("x"))));
}

#[test]
fn faults_at_the_first_token_leave_the_cursor() {
    let mut parser = Parser::new(tokens("nanpa awen x"));
    assert_eq!(parser.parse_type(), Err(ParseError::ConstantType { position: 1 }));
    assert_eq!(parser.peek(), Some(&Token::Keyword(Keyword::Nanpa)));
    let mut parser = Parser::new(tokens("12ab ."));
    assert_eq!(parser.parse_nanpa_expression(), Err(ParseError::InvalidNumber { position: 0 }));
    assert_eq!(parser.parse_unary_expression(), Err(ParseError::InvalidNumber { position: 0 }));
    assert_eq!(parser.peek(), Some(&Token::Number("12ab".to_string())));
    parser.consume();
    assert_eq!(parser.parse_unary_expression(), Err(ParseError::ExpectedExpression { position: 1 }));
    assert_eq!(parser.parse_nimi_expression(), Err(ParseError::ExpectedName { position: 1 }));
    assert_eq!(parser.parse_type(), Err(ParseError::ExpectedType { position: 1 }));
    assert_eq!(parser.peek(), Some(&Token::Symbol(Symbol::Period)));
}

#[test]
fn parser_cursor_steps_past_the_last_token() {
    let mut parser = Parser::new(tokens("x"));
    parser.consume();
    parser.consume();
    assert_eq!(parser.peek(), None);
    assert!(!parser.expect(Token::Name(String::new())));
}
