//! The parser: tokens to a syntax tree, by recursive descent with
//! precedence climbing for expressions.

use vstd::prelude::*;
use vstd::string::*;
use crate::ast::{
    BinaryExpression, Expression, ExpressionView, LiKamaSamaStatement, LinjaExpression,
    NanpaExpression, NimiExpression, Node, NodeView, OExpression, OSinStatement, OWekaStatement,
    OtawaStatement, PaliDeclaration, PaliStatement, Parenthesis, TenpoStatement, UnaryExpression,
    expressions_view, nodes_view, optional_text, parameters_view,
};
use crate::error::ParseError;
use crate::grammar::{
    Parsed, Signature, arguments, assignment, at, block, call, call_statement, closed_body,
    conditional, declaration, exit, expression, extend, function, lemma_block_span,
    lemma_extend_shift, name, number, operations, operator_of, parameters, parenthesis, program,
    returning, signature, statement, token_at, tokens_left, type_at, unary,
};
use crate::precedence::{BinaryExpressionType, Precedence, get_precedence};
use crate::text::parse_decimal;
use crate::token::{Phrase, Token, TokenView, tokens_view};
use crate::word::{Keyword, Symbol};

verus! {

/// A cursor over tokens, and the statements parsed so far.
pub struct Parser {
    tokens: Vec<Token>,
    current_token: usize,
    nodes: Vec<Node>,
}

/// The binary operator that a token stands for, if any.
pub fn operator_for(token: &Token) -> (r: Option<BinaryExpressionType>)
    ensures
        r == operator_of(token@),
{
    match token {
        Token::Symbol(Symbol::Plus) => Some(BinaryExpressionType::Add),
        Token::Symbol(Symbol::Minus) => Some(BinaryExpressionType::Subtract),
        Token::Symbol(Symbol::Star) => Some(BinaryExpressionType::Multiply),
        Token::Symbol(Symbol::ForwardSlash) => Some(BinaryExpressionType::Divide),
        Token::Symbol(Symbol::GreaterThan) => Some(BinaryExpressionType::GreaterThan),
        Token::Symbol(Symbol::LessThan) => Some(BinaryExpressionType::LessThan),
        Token::Symbol(Symbol::Equals) => Some(BinaryExpressionType::Equals),
        _ => None,
    }
}

/// The view of an optional token.
pub open spec fn optional_token(token: Option<Token>) -> Option<TokenView> {
    match token {
        Some(t) => Some(t@),
        None => None,
    }
}

impl Parser {
    /// The tokens to parse.
    pub closed spec fn tokens(&self) -> Seq<TokenView> {
        tokens_view(self.tokens@)
    }

    /// The index of the next token to read.
    pub closed spec fn position(&self) -> nat {
        self.current_token as nat
    }

    /// The statements parsed so far.
    pub closed spec fn nodes(&self) -> Seq<NodeView> {
        nodes_view(self.nodes@)
    }

    /// Whether `next` is `self` but for the cursor.
    pub open spec fn kept(&self, next: &Parser) -> bool {
        &&& next.tokens() == self.tokens()
        &&& next.nodes() == self.nodes()
    }

    /// Whether `r` and `next` are what `expected` asks for: on success a
    /// value that `same` relates to the expected one and the cursor moved
    /// past the tokens it spans, on failure the same error. Tokens and
    /// statements stay as they are either way.
    pub open spec fn outcome<T, V>(
        &self,
        next: &Parser,
        r: Result<T, ParseError>,
        expected: Parsed<V>,
        same: spec_fn(T, V) -> bool,
    ) -> bool {
        &&& self.kept(next)
        &&& match expected {
            Ok((v, n)) => r is Ok && same(r->Ok_0, v) && next.position() == self.position() + n,
            Err(e) => r is Err && r->Err_0 == e,
        }
    }

    /// [`Parser::outcome`] for a value that has a view: the view is the
    /// expected value.
    pub open spec fn yields<T: View>(
        &self,
        next: &Parser,
        r: Result<T, ParseError>,
        expected: Parsed<T::V>,
    ) -> bool {
        self.outcome(next, r, expected, |t: T, v: T::V| t@ == v)
    }

    /// A parser at the start of `tokens`, with no statements yet.
    pub fn new(tokens: Vec<Token>) -> (p: Parser)
        ensures
            p.tokens() == tokens_view(tokens@),
            p.position() == 0,
            p.nodes() == Seq::<NodeView>::empty(),
    {
        let p = Parser { tokens, current_token: 0, nodes: Vec::new() };
        p
    }

    /// Hands out the statements parsed so far.
    pub fn into_nodes(self) -> (nodes: Vec<Node>)
        ensures
            nodes_view(nodes@) == self.nodes(),
    {
        self.nodes
    }

    /// The next token, if any is left.
    pub fn peek(&self) -> (t: Option<&Token>)
        ensures
            match t {
                Some(token) => Some(token@) == token_at(self.tokens(), self.position() as int),
                None => token_at(self.tokens(), self.position() as int) is None,
            },
            t is Some ==> self.position() < usize::MAX,
    {
        if self.current_token < self.tokens.len() {
            Some(&self.tokens[self.current_token])
        } else {
            None
        }
    }

    /// Steps the cursor on by one, whether a token is left or not.
    pub fn consume(&mut self)
        requires
            old(self).position() < usize::MAX,
        ensures
            final(self).tokens() == old(self).tokens(),
            final(self).nodes() == old(self).nodes(),
            final(self).position() == old(self).position() + 1,
    {
        self.current_token += 1;
    }

    /// Whether the next token is of the kind of `expected`.
    pub fn expect(&self, expected: Token) -> (r: bool)
        ensures
            r == match token_at(self.tokens(), self.position() as int) {
                Some(token) => token.same_kind(expected@),
                None => false,
            },
            r ==> self.position() < usize::MAX,
    {
        match self.peek() {
            None => false,
            Some(token) => token.same_kind(&expected),
        }
    }

    /// Whether the next token is the phrase `phrase`.
    fn at_phrase(&self, phrase: Phrase) -> (r: bool)
        ensures
            r == at(self.tokens(), self.position() as int, TokenView::Phrase(phrase)),
            r ==> self.position() < usize::MAX,
    {
        self.expect(Token::Phrase(phrase))
    }

    /// Whether the next token is the keyword `keyword`.
    fn at_keyword(&self, keyword: Keyword) -> (r: bool)
        ensures
            r == at(self.tokens(), self.position() as int, TokenView::Keyword(keyword)),
            r ==> self.position() < usize::MAX,
    {
        self.expect(Token::Keyword(keyword))
    }

    /// Whether the next token is the mark `symbol`.
    fn at_symbol(&self, symbol: Symbol) -> (r: bool)
        ensures
            r == at(self.tokens(), self.position() as int, TokenView::Symbol(symbol)),
            r ==> self.position() < usize::MAX,
    {
        self.expect(Token::Symbol(symbol))
    }

    /// Reads a number.
    pub fn parse_nanpa_expression(&mut self) -> (r: Result<NanpaExpression, ParseError>)
        ensures
            old(self).outcome(
                final(self),
                r,
                number(old(self).tokens(), old(self).position() as int),
                |t: NanpaExpression, v: int| t.value == v,
            ),
            r is Err ==> final(self).position() == old(self).position(),
    {
        let value = match self.peek() {
            Some(Token::Number(text)) => parse_decimal(text.as_str()),
            _ => {
                return Err(ParseError::ExpectedNumber { position: self.current_token });
            },
        };
        match value {
            Some(value) => {
                self.consume();
                Ok(NanpaExpression { value })
            },
            None => Err(ParseError::InvalidNumber { position: self.current_token }),
        }
    }

    /// Reads a name: an identifier, or the particle `a`.
    pub fn parse_nimi_expression(&mut self) -> (r: Result<NimiExpression, ParseError>)
        ensures
            old(self).outcome(
                final(self),
                r,
                name(old(self).tokens(), old(self).position() as int),
                |t: NimiExpression, v: Seq<char>| t.value@ == v,
            ),
            r is Err ==> final(self).position() == old(self).position(),
    {
        let value = match self.peek() {
            Some(Token::Name(text)) => text.clone(),
            Some(Token::Keyword(Keyword::A)) => "a".to_owned(),
            _ => {
                return Err(ParseError::ExpectedName { position: self.current_token });
            },
        };
        self.consume();
        Ok(NimiExpression { value })
    }

    /// Reads an expression without an operator at its top. Where none
    /// starts at the cursor, or the number there is not valid, the cursor
    /// stays where it is; a fault inside a call leaves it inside the call.
    pub fn parse_unary_expression(&mut self) -> (r: Result<UnaryExpression, ParseError>)
        ensures
            old(self).yields(final(self), r, unary(old(self).tokens(), old(self).position() as int)),
            r is Err && !at(
                old(self).tokens(),
                old(self).position() as int,
                TokenView::Phrase(Phrase::O),
            ) ==> final(self).position() == old(self).position(),
        decreases tokens_left(old(self).tokens(), old(self).position() as int), 2nat,
    {
        match self.peek() {
            Some(Token::Number(_)) => {
                let n = self.parse_nanpa_expression()?;
                Ok(UnaryExpression::Nanpa(n))
            },
            Some(Token::Phrase(Phrase::O)) => {
                let o = self.parse_o()?;
                Ok(UnaryExpression::O(o))
            },
            Some(Token::StringLiteral(text)) => {
                let value = text.clone();
                self.consume();
                Ok(UnaryExpression::Linja(LinjaExpression { value }))
            },
            Some(Token::Name(_)) | Some(Token::Keyword(Keyword::A)) => {
                let n = self.parse_nimi_expression()?;
                Ok(UnaryExpression::Nimi(n))
            },
            _ => Err(ParseError::ExpectedExpression { position: self.current_token }),
        }
    }

    /// Reads a call: `o`, the name of the function, each argument behind
    /// an `e`, and the closing `a`.
    pub fn parse_o(&mut self) -> (r: Result<OExpression, ParseError>)
        ensures
            old(self).yields(final(self), r, call(old(self).tokens(), old(self).position() as int)),
            !at(
                old(self).tokens(),
                old(self).position() as int,
                TokenView::Phrase(Phrase::O),
            ) ==> final(self).position() == old(self).position(),
        decreases tokens_left(old(self).tokens(), old(self).position() as int), 1nat,
    {
        if !self.at_phrase(Phrase::O) {
            return Err(ParseError::ExpectedExpression { position: self.current_token });
        }
        let ghost ts = self.tokens();
        let ghost start = self.current_token as int;
        self.consume();
        let nimi = self.parse_nimi_expression()?;
        let mut params: Vec<Expression> = Vec::new();
        assert(expressions_view(params@) =~= Seq::empty());
        if self.at_keyword(Keyword::E) {
            self.consume();
            let ghost first = self.current_token as int;
            let ghost goal = arguments(ts, first);
            loop
                invariant_except_break
                    goal == extend(
                        expressions_view(params@),
                        (self.current_token - first) as nat,
                        arguments(ts, self.current_token as int),
                    ),
                invariant
                    old(self).kept(self),
                    ts == self.tokens(),
                    ts == old(self).tokens(),
                    start == old(self).position(),
                    start + 3 == first <= self.current_token,
                    goal == arguments(ts, first),
                    at(ts, start, TokenView::Phrase(Phrase::O)),
                    name(ts, start + 1) == Ok::<(Seq<char>, nat), ParseError>((nimi.value@, 1)),
                    at(ts, start + 2, TokenView::Keyword(Keyword::E)),
                ensures
                    old(self).kept(self),
                    first <= self.current_token,
                    goal == Ok::<(Seq<ExpressionView>, nat), ParseError>(
                        (expressions_view(params@), (self.current_token - first) as nat),
                    ),
                decreases tokens_left(self.tokens(), self.current_token as int),
            {
                let ghost done = expressions_view(params@);
                let ghost cur = self.current_token as int;
                let argument = self.parse_expression(Precedence::Undefined)?;
                let ghost n = (self.current_token - cur) as nat;
                params.push(argument);
                assert(expressions_view(params@) =~= done + seq![argument@]);
                if !self.at_keyword(Keyword::E) {
                    proof {
                        assert(arguments(ts, cur) == Ok::<(Seq<ExpressionView>, nat), ParseError>(
                            (seq![argument@], n),
                        ));
                    }
                    break ;
                }
                self.consume();
                proof {
                    lemma_extend_shift(
                        done,
                        (cur - first) as nat,
                        seq![argument@],
                        n + 1,
                        arguments(ts, cur + n + 1),
                    );
                }
            }
        }
        if !self.at_keyword(Keyword::A) {
            return Err(ParseError::MissingA { position: self.current_token });
        }
        self.consume();
        Ok(OExpression { nimi, params })
    }

    /// Reads an expression whose operators all bind at least as tightly
    /// as `min_precedence`.
    pub fn parse_expression(&mut self, min_precedence: Precedence) -> (r: Result<
        Expression,
        ParseError,
    >)
        ensures
            old(self).yields(
                final(self),
                r,
                expression(old(self).tokens(), old(self).position() as int, min_precedence),
            ),
        decreases tokens_left(old(self).tokens(), old(self).position() as int), 4nat,
    {
        let ghost ts = self.tokens();
        let ghost start = self.current_token as int;
        let lhs_unary = self.parse_unary_expression()?;
        let mut lhs_expr = Expression::Unary(lhs_unary);
        let ghost first = self.current_token as int;
        let ghost goal = operations(ts, first, lhs_expr@, min_precedence);
        let ghost lhs_first = lhs_expr@;
        loop
            invariant
                old(self).kept(self),
                ts == self.tokens(),
                ts == old(self).tokens(),
                start == old(self).position(),
                start <= first <= self.current_token,
                unary(ts, start) == Ok::<(ExpressionView, nat), ParseError>(
                    (lhs_first, (first - start) as nat),
                ),
                goal == operations(ts, first, lhs_first, min_precedence),
                match operations(ts, self.current_token as int, lhs_expr@, min_precedence) {
                    Ok((whole, n)) => goal == Ok::<(ExpressionView, nat), ParseError>(
                        (whole, (self.current_token - first + n) as nat),
                    ),
                    Err(e) => goal == Err::<(ExpressionView, nat), ParseError>(e),
                },
            ensures
                old(self).kept(self),
                first <= self.current_token,
                goal == Ok::<(ExpressionView, nat), ParseError>(
                    (lhs_expr@, (self.current_token - first) as nat),
                ),
            decreases tokens_left(self.tokens(), self.current_token as int),
        {
            let binary_type = match self.peek() {
                None => {
                    break ;
                },
                Some(token) => match operator_for(token) {
                    None => {
                        break ;
                    },
                    Some(kind) => kind,
                },
            };
            let current_precedence = get_precedence(binary_type);
            if current_precedence.below(&min_precedence) {
                break ;
            }
            self.consume();
            let rhs_expr = self.parse_expression(current_precedence.next())?;
            let binary_expression = BinaryExpression {
                kind: binary_type,
                lhs: Box::new(lhs_expr),
                rhs: Box::new(rhs_expr),
            };
            lhs_expr = Expression::Binary(binary_expression);
        }
        Ok(lhs_expr)
    }

    /// Reads a type: `nanpa` or `linja`. A type marked `awen` is
    /// refused. On a fault the cursor stays where it is.
    pub fn parse_type(&mut self) -> (r: Result<String, ParseError>)
        ensures
            old(self).outcome(
                final(self),
                r,
                type_at(old(self).tokens(), old(self).position() as int),
                |t: String, v: Seq<char>| t@ == v,
            ),
            r is Err ==> final(self).position() == old(self).position(),
    {
        let vartype = match self.peek() {
            Some(Token::Keyword(Keyword::Nanpa)) => "nanpa".to_owned(),
            Some(Token::Keyword(Keyword::Linja)) => "linja".to_owned(),
            _ => {
                return Err(ParseError::ExpectedType { position: self.current_token });
            },
        };
        let marked = self.current_token + 1 < self.tokens.len() && self.tokens[self.current_token
            + 1].same_kind(&Token::Keyword(Keyword::Awen));
        if marked {
            return Err(ParseError::ConstantType { position: self.current_token + 1 });
        }
        self.consume();
        Ok(vartype)
    }

    /// Reads a return from the program: `o tawa` and an expression.
    pub fn parse_otawa(&mut self) -> (r: Result<OtawaStatement, ParseError>)
        ensures
            old(self).yields(final(self), r, exit(old(self).tokens(), old(self).position() as int)),
            !at(
                old(self).tokens(),
                old(self).position() as int,
                TokenView::Phrase(Phrase::OTawa),
            ) ==> final(self).position() == old(self).position(),
    {
        if !self.at_phrase(Phrase::OTawa) {
            return Err(ParseError::UnexpectedToken { position: self.current_token });
        }
        self.consume();
        let expr = self.parse_expression(Precedence::Undefined)?;
        Ok(OtawaStatement { expr })
    }

    /// Reads a variable declaration: `o sin e`, a type and a name.
    pub fn parse_o_sin(&mut self) -> (r: Result<OSinStatement, ParseError>)
        ensures
            old(self).yields(
                final(self),
                r,
                declaration(old(self).tokens(), old(self).position() as int),
            ),
            !at(
                old(self).tokens(),
                old(self).position() as int,
                TokenView::Phrase(Phrase::OSin),
            ) ==> final(self).position() == old(self).position(),
    {
        if !self.at_phrase(Phrase::OSin) {
            return Err(ParseError::UnexpectedToken { position: self.current_token });
        }
        self.consume();
        let var_type = self.parse_type()?;
        let name = self.parse_nimi_expression()?;
        Ok(OSinStatement { var_type, name })
    }

    /// Reads an assignment: a name, `li kama sama` and an expression.
    pub fn parse_li_kama_sama(&mut self) -> (r: Result<LiKamaSamaStatement, ParseError>)
        ensures
            old(self).yields(
                final(self),
                r,
                assignment(old(self).tokens(), old(self).position() as int),
            ),
            name(old(self).tokens(), old(self).position() as int) is Err ==> final(self).position()
                == old(self).position(),
    {
        let nimi = self.parse_nimi_expression()?;
        if !self.at_phrase(Phrase::LiKamaSama) {
            return Err(ParseError::MissingAssignment { position: self.current_token });
        }
        self.consume();
        let expression = self.parse_expression(Precedence::Undefined)?;
        Ok(LiKamaSamaStatement { nimi, expression })
    }

    /// Reads a return from a function: `o weka`, alone or with `e` and an
    /// expression.
    pub fn parse_o_weka(&mut self) -> (r: Result<OWekaStatement, ParseError>)
        ensures
            old(self).yields(
                final(self),
                r,
                returning(old(self).tokens(), old(self).position() as int),
            ),
            !at(
                old(self).tokens(),
                old(self).position() as int,
                TokenView::Phrase(Phrase::OWeka),
            ) ==> final(self).position() == old(self).position(),
    {
        if !self.at_phrase(Phrase::OWeka) {
            return Err(ParseError::UnexpectedToken { position: self.current_token });
        }
        self.consume();
        let mut expr = None;
        if self.at_keyword(Keyword::E) {
            self.consume();
            expr = Some(self.parse_expression(Precedence::Undefined)?);
        }
        Ok(OWekaStatement { expr })
    }

    /// Reads a call that stands as a statement.
    fn parse_o_statement(&mut self) -> (r: Result<OExpression, ParseError>)
        ensures
            old(self).outcome(
                final(self),
                r,
                call_statement(old(self).tokens(), old(self).position() as int),
                |t: OExpression, v: NodeView| Node::O(t)@ == v,
            ),
    {
        self.parse_o()
    }

    /// Reads the statements up to the token that closes the block, and
    /// that token; or, without one, up to the end of the tokens.
    fn parse_block(&mut self, terminator: Option<Token>) -> (r: Result<Vec<Node>, ParseError>)
        requires
            terminator matches Some(t) ==> t is Phrase || t is Symbol,
        ensures
            old(self).outcome(
                final(self),
                r,
                block(old(self).tokens(), old(self).position() as int, optional_token(terminator)),
                |t: Vec<Node>, v: Seq<NodeView>| nodes_view(t@) == v,
            ),
        decreases tokens_left(old(self).tokens(), old(self).position() as int), 7nat,
    {
        let ghost ts = self.tokens();
        let ghost start = self.current_token as int;
        let ghost closing = optional_token(terminator);
        let ghost goal = block(ts, start, closing);
        let mut nodes: Vec<Node> = Vec::new();
        assert(goal == extend(Seq::empty(), 0, goal));
        loop
            invariant_except_break
                goal == extend(
                    nodes_view(nodes@),
                    (self.current_token - start) as nat,
                    block(ts, self.current_token as int, closing),
                ),
            invariant
                old(self).kept(self),
                ts == self.tokens(),
                ts == old(self).tokens(),
                start == old(self).position(),
                start <= self.current_token,
                closing == optional_token(terminator),
                terminator matches Some(t) ==> t is Phrase || t is Symbol,
                goal == block(ts, start, closing),
            ensures
                old(self).kept(self),
                start <= self.current_token,
                goal == Ok::<(Seq<NodeView>, nat), ParseError>(
                    (nodes_view(nodes@), (self.current_token - start) as nat),
                ),
            decreases tokens_left(self.tokens(), self.current_token as int),
        {
            let ghost done = nodes_view(nodes@);
            let ghost cur = self.current_token as int;
            let ghost skipped = (cur - start) as nat;
            let (closes, separates) = match self.peek() {
                None => {
                    match terminator {
                        None => {
                            break ;
                        },
                        Some(_) => {
                            return Err(
                                ParseError::MissingTerminator { position: self.current_token },
                            );
                        },
                    }
                },
                Some(token) => {
                    let closes = match &terminator {
                        Some(t) => token.same_kind(t),
                        None => false,
                    };
                    let separates = match token {
                        Token::Symbol(Symbol::Period)
                        | Token::Symbol(Symbol::Colon)
                        | Token::OpeningTab(_) => true,
                        _ => false,
                    };
                    (closes, separates)
                },
            };
            if closes {
                self.consume();
                break ;
            }
            if separates {
                self.consume();
            } else {
                let node = self.parse_statement()?;
                let ghost n = (self.current_token - cur) as nat;
                nodes.push(node);
                proof {
                    assert(nodes_view(nodes@) =~= done + seq![node@]);
                    lemma_extend_shift(done, skipped, seq![node@], n, block(ts, cur + n, closing));
                }
            }
        }
        Ok(nodes)
    }

    /// Reads a conditional: `tenpo pi`, an expression, `la`, and a body
    /// that runs to `o pini`.
    pub fn parse_tenpo(&mut self) -> (r: Result<TenpoStatement, ParseError>)
        ensures
            old(self).yields(
                final(self),
                r,
                conditional(old(self).tokens(), old(self).position() as int),
            ),
            !at(
                old(self).tokens(),
                old(self).position() as int,
                TokenView::Phrase(Phrase::TenpoPi),
            ) ==> final(self).position() == old(self).position(),
        decreases tokens_left(old(self).tokens(), old(self).position() as int), 5nat,
    {
        if !self.at_phrase(Phrase::TenpoPi) {
            return Err(ParseError::UnexpectedToken { position: self.current_token });
        }
        self.consume();
        let expr = self.parse_expression(Precedence::Undefined)?;
        if !self.at_keyword(Keyword::La) {
            return Err(ParseError::MissingLa { position: self.current_token });
        }
        self.consume();
        let nodes = self.parse_block(Some(Token::Phrase(Phrase::OPini)))?;
        Ok(TenpoStatement { expr, nodes })
    }

    /// Reads a block between parentheses.
    pub fn parse_parenthesis(&mut self) -> (r: Result<Parenthesis, ParseError>)
        ensures
            old(self).yields(
                final(self),
                r,
                parenthesis(old(self).tokens(), old(self).position() as int),
            ),
            !at(
                old(self).tokens(),
                old(self).position() as int,
                TokenView::Symbol(Symbol::OpenParenthesis),
            ) ==> final(self).position() == old(self).position(),
        decreases tokens_left(old(self).tokens(), old(self).position() as int), 5nat,
    {
        if !self.at_symbol(Symbol::OpenParenthesis) {
            return Err(ParseError::UnexpectedToken { position: self.current_token });
        }
        self.consume();
        let nodes = self.parse_block(Some(Token::Symbol(Symbol::CloseParenthesis)))?;
        Ok(Parenthesis { nodes })
    }

    /// Reads one or more parameters, each a type and a name, with `en`
    /// between each two.
    fn parse_parameters(&mut self) -> (r: Result<Vec<(String, NimiExpression)>, ParseError>)
        ensures
            old(self).outcome(
                final(self),
                r,
                parameters(old(self).tokens(), old(self).position() as int),
                |t: Vec<(String, NimiExpression)>, v: Seq<(Seq<char>, Seq<char>)>|
                    parameters_view(t@) == v,
            ),
    {
        let ghost ts = self.tokens();
        let ghost start = self.current_token as int;
        let ghost goal = parameters(ts, start);
        let mut params: Vec<(String, NimiExpression)> = Vec::new();
        assert(goal == extend(Seq::empty(), 0, goal));
        loop
            invariant_except_break
                goal == extend(
                    parameters_view(params@),
                    (self.current_token - start) as nat,
                    parameters(ts, self.current_token as int),
                ),
            invariant
                old(self).kept(self),
                ts == self.tokens(),
                ts == old(self).tokens(),
                start == old(self).position(),
                start <= self.current_token,
                goal == parameters(ts, start),
            ensures
                old(self).kept(self),
                start <= self.current_token,
                goal == Ok::<(Seq<(Seq<char>, Seq<char>)>, nat), ParseError>(
                    (parameters_view(params@), (self.current_token - start) as nat),
                ),
            decreases tokens_left(self.tokens(), self.current_token as int),
        {
            let ghost done = parameters_view(params@);
            let ghost cur = self.current_token as int;
            let ghost skipped = (cur - start) as nat;
            let var_type = self.parse_type()?;
            let name = self.parse_nimi_expression()?;
            let ghost item = seq![(var_type@, name.value@)];
            params.push((var_type, name));
            assert(parameters_view(params@) =~= done + item);
            if !self.at_keyword(Keyword::En) {
                break ;
            }
            self.consume();
            proof {
                lemma_extend_shift(done, skipped, item, 3, parameters(ts, cur + 3));
            }
        }
        Ok(params)
    }

    /// Reads what follows the name of a function: a return type behind
    /// `li pana e` and a parameter list behind `li kepeken`, each at most
    /// once, in either order.
    fn parse_signature(&mut self) -> (r: Result<
        (Option<String>, Vec<(String, NimiExpression)>),
        ParseError,
    >)
        ensures
            old(self).outcome(
                final(self),
                r,
                signature(old(self).tokens(), old(self).position() as int),
                |t: (Option<String>, Vec<(String, NimiExpression)>), v: Signature|
                    optional_text(t.0) == v.return_type && parameters_view(t.1@) == v.parameters,
            ),
    {
        let mut params: Vec<(String, NimiExpression)> = Vec::new();
        let mut retval: Option<String> = None;
        assert(parameters_view(params@) =~= Seq::empty());
        if self.at_phrase(Phrase::LiPanaE) {
            self.consume();
            retval = Some(self.parse_type()?);
            if self.at_phrase(Phrase::LiKepeken) {
                self.consume();
                params = self.parse_parameters()?;
            }
        } else if self.at_phrase(Phrase::LiKepeken) {
            self.consume();
            params = self.parse_parameters()?;
            if self.at_phrase(Phrase::LiPanaE) {
                self.consume();
                retval = Some(self.parse_type()?);
            }
        }
        Ok((retval, params))
    }

    /// Reads a function: `pali`, a name and a signature, and then either
    /// `li pali e ni` and a body that runs to `o pini`, which makes a
    /// definition, or nothing more but an optional `a`, which makes the
    /// declaration of an external function. A body gets a return from the
    /// function at its end unless its last statement is one.
    pub fn parse_pali(&mut self) -> (r: Result<Node, ParseError>)
        ensures
            old(self).yields(final(self), r, function(old(self).tokens(), old(self).position() as int)),
            !at(
                old(self).tokens(),
                old(self).position() as int,
                TokenView::Keyword(Keyword::Pali),
            ) ==> final(self).position() == old(self).position(),
        decreases tokens_left(old(self).tokens(), old(self).position() as int), 5nat,
    {
        if !self.at_keyword(Keyword::Pali) {
            return Err(ParseError::UnexpectedToken { position: self.current_token });
        }
        self.consume();
        let nimi = self.parse_nimi_expression()?;
        let (retval, params) = self.parse_signature()?;
        if !self.at_phrase(Phrase::LiPaliENi) {
            if self.at_keyword(Keyword::A) {
                self.consume();
            }
            return Ok(Node::PaliDeclaration(PaliDeclaration { nimi, params, retval }));
        }
        self.consume();
        let mut nodes = self.parse_block(Some(Token::Phrase(Phrase::OPini)))?;
        let ghost body = nodes_view(nodes@);
        let ends_in_return = nodes.len() > 0 && match &nodes[nodes.len() - 1] {
            Node::OWeka(_) => true,
            _ => false,
        };
        if !ends_in_return {
            let oweka = Node::OWeka(OWekaStatement { expr: None });
            nodes.push(oweka);
        }
        assert(nodes_view(nodes@) == closed_body(body));
        Ok(Node::Pali(PaliStatement { nimi, params, nodes, retval }))
    }

    /// Reads the statement that the next token starts.
    pub fn parse_statement(&mut self) -> (r: Result<Node, ParseError>)
        ensures
            old(self).yields(
                final(self),
                r,
                statement(old(self).tokens(), old(self).position() as int),
            ),
        decreases tokens_left(old(self).tokens(), old(self).position() as int), 6nat,
    {
        match self.peek() {
            Some(Token::Phrase(Phrase::OTawa)) => Ok(Node::Otawa(self.parse_otawa()?)),
            Some(Token::Phrase(Phrase::OSin)) => Ok(Node::OSin(self.parse_o_sin()?)),
            Some(Token::Keyword(Keyword::Pali)) => self.parse_pali(),
            Some(Token::Phrase(Phrase::OWeka)) => Ok(Node::OWeka(self.parse_o_weka()?)),
            Some(Token::Phrase(Phrase::O)) => Ok(Node::O(self.parse_o_statement()?)),
            Some(Token::Symbol(Symbol::OpenParenthesis)) => Ok(
                Node::Parenthesis(self.parse_parenthesis()?),
            ),
            Some(Token::Phrase(Phrase::TenpoPi)) => Ok(Node::Tenpo(self.parse_tenpo()?)),
            Some(Token::Name(_)) | Some(Token::Keyword(Keyword::A)) => Ok(
                Node::LiKamaSama(self.parse_li_kama_sama()?),
            ),
            _ => Err(ParseError::UnexpectedToken { position: self.current_token }),
        }
    }

    /// Reads the statements from the cursor to the end of the tokens and
    /// appends them to those parsed so far. Stops at the first fault.
    pub fn parse(&mut self) -> (r: Result<(), ParseError>)
        ensures
            final(self).tokens() == old(self).tokens(),
            match block(old(self).tokens(), old(self).position() as int, None) {
                Ok((nodes, n)) => r is Ok && final(self).nodes() == old(self).nodes() + nodes
                    && final(self).position() == old(self).position() + n,
                Err(e) => r == Err::<(), ParseError>(e) && final(self).nodes() == old(self).nodes(),
            },
            r is Ok && old(self).position() <= old(self).tokens().len() ==> final(self).position()
                == final(self).tokens().len(),
    {
        proof {
            if self.current_token <= self.tokens.len() {
                lemma_block_span(self.tokens(), self.current_token as int, None);
            }
        }
        match self.parse_block(None) {
            Ok(mut nodes) => {
                self.nodes.append(&mut nodes);
                Ok(())
            },
            Err(e) => Err(e),
        }
    }
}

/// Whether an executable result stands for a specified one.
pub open spec fn parsed_as(
    r: Result<Vec<Node>, ParseError>,
    expected: Result<Seq<NodeView>, ParseError>,
) -> bool {
    match expected {
        Ok(nodes) => r is Ok && nodes_view(r->Ok_0@) == nodes,
        Err(e) => r == Err::<Vec<Node>, ParseError>(e),
    }
}

/// Parses tokens into the statements of a program.
pub fn parse(tokens: Vec<Token>) -> (r: Result<Vec<Node>, ParseError>)
    ensures
        parsed_as(r, program(tokens_view(tokens@))),
{
    let mut parser = Parser::new(tokens);
    match parser.parse() {
        Ok(()) => {
            Ok(parser.into_nodes())
        },
        Err(e) => Err(e),
    }
}

} // verus!
