//! The grammar of the language, as functions from a position in a sequence
//! of tokens to the tree that starts there and the number of tokens it
//! spans.

use vstd::prelude::*;
use crate::ast::{ExpressionView, NodeView};
use crate::error::ParseError;
use crate::precedence::{BinaryExpressionType, Precedence, precedence_of};
use crate::text::decimal_value;
use crate::token::{Phrase, TokenView};
use crate::word::{Keyword, Symbol};

verus! {

/// What a rule of the grammar gives: a value and the number of tokens it
/// spans, or the first fault.
pub type Parsed<T> = Result<(T, nat), ParseError>;

/// The number of tokens from `pos` on.
pub open spec fn tokens_left(ts: Seq<TokenView>, pos: int) -> nat {
    if pos < ts.len() {
        (ts.len() - pos) as nat
    } else {
        0
    }
}

/// The token at `pos`, if there is one.
pub open spec fn token_at(ts: Seq<TokenView>, pos: int) -> Option<TokenView> {
    if 0 <= pos < ts.len() {
        Some(ts[pos])
    } else {
        None
    }
}

/// Whether the token at `pos` is `token`.
pub open spec fn at(ts: Seq<TokenView>, pos: int, token: TokenView) -> bool {
    token_at(ts, pos) == Some(token)
}

/// The name that a token spells where a name is due: an identifier, or the
/// particle `a`, which doubles as the identifier `a`.
pub open spec fn name_of(token: TokenView) -> Option<Seq<char>> {
    match token {
        TokenView::Name(s) => Some(s),
        TokenView::Keyword(Keyword::A) => Some("a"@),
        _ => None,
    }
}

/// The binary operator that a token stands for, if any.
pub open spec fn operator_of(token: TokenView) -> Option<BinaryExpressionType> {
    match token {
        TokenView::Symbol(Symbol::Plus) => Some(BinaryExpressionType::Add),
        TokenView::Symbol(Symbol::Minus) => Some(BinaryExpressionType::Subtract),
        TokenView::Symbol(Symbol::Star) => Some(BinaryExpressionType::Multiply),
        TokenView::Symbol(Symbol::ForwardSlash) => Some(BinaryExpressionType::Divide),
        TokenView::Symbol(Symbol::GreaterThan) => Some(BinaryExpressionType::GreaterThan),
        TokenView::Symbol(Symbol::LessThan) => Some(BinaryExpressionType::LessThan),
        TokenView::Symbol(Symbol::Equals) => Some(BinaryExpressionType::Equals),
        _ => None,
    }
}

/// Whether a token only separates statements: a period, a colon, or the
/// tabs that open a line.
pub open spec fn is_separator(token: TokenView) -> bool {
    token == TokenView::Symbol(Symbol::Period) || token == TokenView::Symbol(Symbol::Colon)
        || token is OpeningTab
}

/// A name at `pos`.
pub open spec fn name(ts: Seq<TokenView>, pos: int) -> Parsed<Seq<char>> {
    match token_at(ts, pos) {
        Some(token) => match name_of(token) {
            Some(s) => Ok((s, 1)),
            None => Err(ParseError::ExpectedName { position: pos as usize }),
        },
        None => Err(ParseError::ExpectedName { position: pos as usize }),
    }
}

/// A number at `pos`: decimal digits that write a value of at most
/// 2^63 - 1.
pub open spec fn number(ts: Seq<TokenView>, pos: int) -> Parsed<int> {
    match token_at(ts, pos) {
        Some(TokenView::Number(text)) => match decimal_value(text) {
            Some(v) => if v <= i64::MAX {
                Ok((v as int, 1))
            } else {
                Err(ParseError::InvalidNumber { position: pos as usize })
            },
            None => Err(ParseError::InvalidNumber { position: pos as usize }),
        },
        _ => Err(ParseError::ExpectedNumber { position: pos as usize }),
    }
}

/// A type at `pos`: `nanpa` or `linja`, not followed by `awen`.
pub open spec fn type_at(ts: Seq<TokenView>, pos: int) -> Parsed<Seq<char>> {
    match token_at(ts, pos) {
        Some(TokenView::Keyword(Keyword::Nanpa)) => if at(
            ts,
            pos + 1,
            TokenView::Keyword(Keyword::Awen),
        ) {
            Err(ParseError::ConstantType { position: (pos + 1) as usize })
        } else {
            Ok(("nanpa"@, 1))
        },
        Some(TokenView::Keyword(Keyword::Linja)) => if at(
            ts,
            pos + 1,
            TokenView::Keyword(Keyword::Awen),
        ) {
            Err(ParseError::ConstantType { position: (pos + 1) as usize })
        } else {
            Ok(("linja"@, 1))
        },
        _ => Err(ParseError::ExpectedType { position: pos as usize }),
    }
}

/// An expression without an operator at its top: a number, a variable, a
/// call or a string literal.
pub open spec fn unary(ts: Seq<TokenView>, pos: int) -> Parsed<ExpressionView>
    decreases tokens_left(ts, pos), 2nat,
{
    match token_at(ts, pos) {
        Some(TokenView::Number(_)) => match number(ts, pos) {
            Ok((v, n)) => Ok((ExpressionView::Number(v), n)),
            Err(e) => Err(e),
        },
        Some(TokenView::Phrase(Phrase::O)) => call(ts, pos),
        Some(TokenView::StringLiteral(s)) => Ok((ExpressionView::Text(s), 1)),
        Some(token) => match name_of(token) {
            Some(s) => Ok((ExpressionView::Variable(s), 1)),
            None => Err(ParseError::ExpectedExpression { position: pos as usize }),
        },
        None => Err(ParseError::ExpectedExpression { position: pos as usize }),
    }
}

/// A call: the call introducer, the name of the function, the arguments
/// each behind an `e`, and the closing `a`.
pub open spec fn call(ts: Seq<TokenView>, pos: int) -> Parsed<ExpressionView>
    decreases tokens_left(ts, pos), 1nat,
{
    if !at(ts, pos, TokenView::Phrase(Phrase::O)) {
        Err(ParseError::ExpectedExpression { position: pos as usize })
    } else {
        match name(ts, pos + 1) {
            Err(e) => Err(e),
            Ok((callee, _)) => if at(ts, pos + 2, TokenView::Keyword(Keyword::E)) {
                match arguments(ts, pos + 3) {
                    Err(e) => Err(e),
                    Ok((args, n)) => if at(ts, pos + 3 + n, TokenView::Keyword(Keyword::A)) {
                        Ok((ExpressionView::Call { name: callee, arguments: args }, 4 + n))
                    } else {
                        Err(ParseError::MissingA { position: (pos + 3 + n) as usize })
                    },
                }
            } else if at(ts, pos + 2, TokenView::Keyword(Keyword::A)) {
                Ok((ExpressionView::Call { name: callee, arguments: Seq::empty() }, 3))
            } else {
                Err(ParseError::MissingA { position: (pos + 2) as usize })
            },
        }
    }
}

/// One or more expressions with an `e` between each two.
pub open spec fn arguments(ts: Seq<TokenView>, pos: int) -> Parsed<Seq<ExpressionView>>
    decreases tokens_left(ts, pos), 5nat,
{
    match expression(ts, pos, Precedence::Undefined) {
        Err(e) => Err(e),
        Ok((first, n)) => if at(ts, pos + n, TokenView::Keyword(Keyword::E)) {
            match arguments(ts, pos + n + 1) {
                Err(e) => Err(e),
                Ok((rest, m)) => Ok((seq![first] + rest, n + 1 + m)),
            }
        } else {
            Ok((seq![first], n))
        },
    }
}

/// An expression whose operators all bind at least as tightly as
/// `min_precedence`. Operators of one precedence group to the left.
pub open spec fn expression(ts: Seq<TokenView>, pos: int, min_precedence: Precedence) -> Parsed<
    ExpressionView,
>
    decreases tokens_left(ts, pos), 4nat,
{
    match unary(ts, pos) {
        Err(e) => Err(e),
        Ok((lhs, n)) => match operations(ts, pos + n, lhs, min_precedence) {
            Err(e) => Err(e),
            Ok((whole, m)) => Ok((whole, n + m)),
        },
    }
}

/// The operators and right-hand sides that follow the expression `lhs`, as
/// long as they bind at least as tightly as `min_precedence`, folded onto
/// `lhs` from the left.
pub open spec fn operations(
    ts: Seq<TokenView>,
    pos: int,
    lhs: ExpressionView,
    min_precedence: Precedence,
) -> Parsed<ExpressionView>
    decreases tokens_left(ts, pos), 3nat,
{
    match token_at(ts, pos) {
        None => Ok((lhs, 0)),
        Some(token) => match operator_of(token) {
            None => Ok((lhs, 0)),
            Some(kind) => if precedence_of(kind).rank() < min_precedence.rank() {
                Ok((lhs, 0))
            } else {
                match expression(ts, pos + 1, precedence_of(kind).successor()) {
                    Err(e) => Err(e),
                    Ok((rhs, n)) => match operations(
                        ts,
                        pos + 1 + n,
                        ExpressionView::Binary { kind, lhs: Box::new(lhs), rhs: Box::new(rhs) },
                        min_precedence,
                    ) {
                        Err(e) => Err(e),
                        Ok((whole, m)) => Ok((whole, 1 + n + m)),
                    },
                }
            },
        },
    }
}

/// One or more parameters, each a type and a name, with `en` between each
/// two.
pub open spec fn parameters(ts: Seq<TokenView>, pos: int) -> Parsed<Seq<(Seq<char>, Seq<char>)>>
    decreases tokens_left(ts, pos),
{
    match type_at(ts, pos) {
        Err(e) => Err(e),
        Ok((t, _)) => match name(ts, pos + 1) {
            Err(e) => Err(e),
            Ok((s, _)) => if at(ts, pos + 2, TokenView::Keyword(Keyword::En)) {
                match parameters(ts, pos + 3) {
                    Err(e) => Err(e),
                    Ok((rest, m)) => Ok((seq![(t, s)] + rest, 3 + m)),
                }
            } else {
                Ok((seq![(t, s)], 2))
            },
        },
    }
}

/// The return type and the parameters of a function.
pub struct Signature {
    pub return_type: Option<Seq<char>>,
    pub parameters: Seq<(Seq<char>, Seq<char>)>,
}

/// What follows the name of a function: a return type behind `li pana e`
/// and a parameter list behind `li kepeken`, each at most once, in either
/// order.
pub open spec fn signature(ts: Seq<TokenView>, pos: int) -> Parsed<Signature> {
    if at(ts, pos, TokenView::Phrase(Phrase::LiPanaE)) {
        match type_at(ts, pos + 1) {
            Err(e) => Err(e),
            Ok((t, _)) => if at(ts, pos + 2, TokenView::Phrase(Phrase::LiKepeken)) {
                match parameters(ts, pos + 3) {
                    Err(e) => Err(e),
                    Ok((ps, n)) => Ok((Signature { return_type: Some(t), parameters: ps }, 3 + n)),
                }
            } else {
                Ok((Signature { return_type: Some(t), parameters: Seq::empty() }, 2))
            },
        }
    } else if at(ts, pos, TokenView::Phrase(Phrase::LiKepeken)) {
        match parameters(ts, pos + 1) {
            Err(e) => Err(e),
            Ok((ps, n)) => if at(ts, pos + 1 + n, TokenView::Phrase(Phrase::LiPanaE)) {
                match type_at(ts, pos + 2 + n) {
                    Err(e) => Err(e),
                    Ok((t, _)) => Ok(
                        (Signature { return_type: Some(t), parameters: ps }, 3 + n),
                    ),
                }
            } else {
                Ok((Signature { return_type: None, parameters: ps }, 1 + n))
            },
        }
    } else {
        Ok((Signature { return_type: None, parameters: Seq::empty() }, 0))
    }
}

/// The body of a function as it is kept: with a return from the function
/// added at its end, unless its last statement is one.
pub open spec fn closed_body(body: Seq<NodeView>) -> Seq<NodeView> {
    if body.len() > 0 && body.last() is Return {
        body
    } else {
        body.push(NodeView::Return(None))
    }
}

/// A return from the program: `o tawa` and an expression.
pub open spec fn exit(ts: Seq<TokenView>, pos: int) -> Parsed<NodeView> {
    if !at(ts, pos, TokenView::Phrase(Phrase::OTawa)) {
        Err(ParseError::UnexpectedToken { position: pos as usize })
    } else {
        match expression(ts, pos + 1, Precedence::Undefined) {
            Err(e) => Err(e),
            Ok((value, n)) => Ok((NodeView::Exit(value), 1 + n)),
        }
    }
}

/// A variable declaration: `o sin e`, a type and a name.
pub open spec fn declaration(ts: Seq<TokenView>, pos: int) -> Parsed<NodeView> {
    if !at(ts, pos, TokenView::Phrase(Phrase::OSin)) {
        Err(ParseError::UnexpectedToken { position: pos as usize })
    } else {
        match type_at(ts, pos + 1) {
            Err(e) => Err(e),
            Ok((t, _)) => match name(ts, pos + 2) {
                Err(e) => Err(e),
                Ok((s, _)) => Ok((NodeView::Declare { var_type: t, name: s }, 3)),
            },
        }
    }
}

/// An assignment: a name, `li kama sama` and an expression.
pub open spec fn assignment(ts: Seq<TokenView>, pos: int) -> Parsed<NodeView> {
    match name(ts, pos) {
        Err(e) => Err(e),
        Ok((s, _)) => if at(ts, pos + 1, TokenView::Phrase(Phrase::LiKamaSama)) {
            match expression(ts, pos + 2, Precedence::Undefined) {
                Err(e) => Err(e),
                Ok((value, n)) => Ok((NodeView::Assign { name: s, value }, 2 + n)),
            }
        } else {
            Err(ParseError::MissingAssignment { position: (pos + 1) as usize })
        },
    }
}

/// A return from a function: `o weka`, alone or with `e` and an
/// expression.
pub open spec fn returning(ts: Seq<TokenView>, pos: int) -> Parsed<NodeView> {
    if !at(ts, pos, TokenView::Phrase(Phrase::OWeka)) {
        Err(ParseError::UnexpectedToken { position: pos as usize })
    } else if at(ts, pos + 1, TokenView::Keyword(Keyword::E)) {
        match expression(ts, pos + 2, Precedence::Undefined) {
            Err(e) => Err(e),
            Ok((value, n)) => Ok((NodeView::Return(Some(value)), 2 + n)),
        }
    } else {
        Ok((NodeView::Return(None), 1))
    }
}

/// A call that stands as a statement.
pub open spec fn call_statement(ts: Seq<TokenView>, pos: int) -> Parsed<NodeView> {
    match call(ts, pos) {
        Ok((ExpressionView::Call { name, arguments }, n)) => Ok(
            (NodeView::Call { name, arguments }, n),
        ),
        Ok(_) => Err(ParseError::ExpectedExpression { position: pos as usize }),
        Err(e) => Err(e),
    }
}

/// A block between parentheses.
pub open spec fn parenthesis(ts: Seq<TokenView>, pos: int) -> Parsed<NodeView>
    decreases tokens_left(ts, pos), 5nat,
{
    if !at(ts, pos, TokenView::Symbol(Symbol::OpenParenthesis)) {
        Err(ParseError::UnexpectedToken { position: pos as usize })
    } else {
        match block(ts, pos + 1, Some(TokenView::Symbol(Symbol::CloseParenthesis))) {
            Err(e) => Err(e),
            Ok((body, n)) => Ok((NodeView::Block(body), 1 + n)),
        }
    }
}

/// A conditional: `tenpo pi`, an expression, `la`, and a body that runs to
/// `o pini`.
pub open spec fn conditional(ts: Seq<TokenView>, pos: int) -> Parsed<NodeView>
    decreases tokens_left(ts, pos), 5nat,
{
    if !at(ts, pos, TokenView::Phrase(Phrase::TenpoPi)) {
        Err(ParseError::UnexpectedToken { position: pos as usize })
    } else {
        match expression(ts, pos + 1, Precedence::Undefined) {
            Err(e) => Err(e),
            Ok((condition, n)) => if at(ts, pos + 1 + n, TokenView::Keyword(Keyword::La)) {
                match block(ts, pos + 2 + n, Some(TokenView::Phrase(Phrase::OPini))) {
                    Err(e) => Err(e),
                    Ok((body, m)) => Ok((NodeView::If { condition, body }, 2 + n + m)),
                }
            } else {
                Err(ParseError::MissingLa { position: (pos + 1 + n) as usize })
            },
        }
    }
}

/// A statement, told by its first token: `o tawa` leaves the program,
/// `o sin e` declares a variable, `pali` defines or declares a function,
/// `o weka` returns from a function, `o` calls a function, an opening
/// parenthesis opens a block, `tenpo pi` opens a conditional, and a name
/// starts an assignment. No other token starts a statement.
pub open spec fn statement(ts: Seq<TokenView>, pos: int) -> Parsed<NodeView>
    decreases tokens_left(ts, pos), 6nat,
{
    match token_at(ts, pos) {
        Some(TokenView::Phrase(Phrase::OTawa)) => exit(ts, pos),
        Some(TokenView::Phrase(Phrase::OSin)) => declaration(ts, pos),
        Some(TokenView::Keyword(Keyword::Pali)) => function(ts, pos),
        Some(TokenView::Phrase(Phrase::OWeka)) => returning(ts, pos),
        Some(TokenView::Phrase(Phrase::O)) => call_statement(ts, pos),
        Some(TokenView::Symbol(Symbol::OpenParenthesis)) => parenthesis(ts, pos),
        Some(TokenView::Phrase(Phrase::TenpoPi)) => conditional(ts, pos),
        Some(token) => if name_of(token) is Some {
            assignment(ts, pos)
        } else {
            Err(ParseError::UnexpectedToken { position: pos as usize })
        },
        None => Err(ParseError::UnexpectedToken { position: pos as usize }),
    }
}

/// A function: `pali`, a name and a signature. Where `li pali e ni`
/// follows, a body that runs to `o pini` makes it a definition. Otherwise
/// it is the declaration of an external function, which an `a` may close.
pub open spec fn function(ts: Seq<TokenView>, pos: int) -> Parsed<NodeView>
    decreases tokens_left(ts, pos), 5nat,
{
    if !at(ts, pos, TokenView::Keyword(Keyword::Pali)) {
        Err(ParseError::UnexpectedToken { position: pos as usize })
    } else {
        match name(ts, pos + 1) {
            Err(e) => Err(e),
            Ok((s, _)) => match signature(ts, pos + 2) {
                Err(e) => Err(e),
                Ok((sig, n)) => if at(ts, pos + 2 + n, TokenView::Phrase(Phrase::LiPaliENi)) {
                    match block(ts, pos + 3 + n, Some(TokenView::Phrase(Phrase::OPini))) {
                        Err(e) => Err(e),
                        Ok((body, m)) => Ok(
                            (
                                NodeView::Function {
                                    name: s,
                                    parameters: sig.parameters,
                                    return_type: sig.return_type,
                                    body: closed_body(body),
                                },
                                3 + n + m,
                            ),
                        ),
                    }
                } else {
                    Ok(
                        (
                            NodeView::External {
                                name: s,
                                parameters: sig.parameters,
                                return_type: sig.return_type,
                            },
                            if at(ts, pos + 2 + n, TokenView::Keyword(Keyword::A)) {
                                3 + n
                            } else {
                                2 + n
                            },
                        ),
                    )
                },
            },
        }
    }
}

/// The statements from `pos` up to the token `terminator`, which is
/// spanned too; or, without a terminator, up to the end of the tokens.
/// Separators between the statements are passed over. (No statement spans
/// zero tokens, see [`lemma_statement_span`]; the test for it makes the recursion
/// plainly well-founded.)
pub open spec fn block(ts: Seq<TokenView>, pos: int, terminator: Option<TokenView>) -> Parsed<
    Seq<NodeView>,
>
    decreases tokens_left(ts, pos), 7nat,
{
    match token_at(ts, pos) {
        None => match terminator {
            None => Ok((Seq::empty(), 0)),
            Some(_) => Err(ParseError::MissingTerminator { position: pos as usize }),
        },
        Some(token) => if terminator == Some(token) {
            Ok((Seq::empty(), 1))
        } else if is_separator(token) {
            match block(ts, pos + 1, terminator) {
                Err(e) => Err(e),
                Ok((rest, m)) => Ok((rest, 1 + m)),
            }
        } else {
            match statement(ts, pos) {
                Err(e) => Err(e),
                Ok((first, n)) => if n == 0 {
                    Err(ParseError::UnexpectedToken { position: pos as usize })
                } else {
                    match block(ts, pos + n, terminator) {
                        Err(e) => Err(e),
                        Ok((rest, m)) => Ok((seq![first] + rest, n + m)),
                    }
                },
            }
        },
    }
}

/// The statements of a whole program.
pub open spec fn program(ts: Seq<TokenView>) -> Result<Seq<NodeView>, ParseError> {
    match block(ts, 0, None) {
        Ok((nodes, _)) => Ok(nodes),
        Err(e) => Err(e),
    }
}

/// The items already read over `skipped` tokens, followed by the items
/// of a result.
pub open spec fn extend<T>(done: Seq<T>, skipped: nat, rest: Parsed<Seq<T>>) -> Parsed<Seq<T>> {
    match rest {
        Ok((items, n)) => Ok((done + items, skipped + n)),
        Err(e) => Err(e),
    }
}

/// Reading one more item commutes with putting it in front of the items
/// still to come.
pub proof fn lemma_extend_shift<T>(
    done: Seq<T>,
    skipped: nat,
    item: Seq<T>,
    n: nat,
    rest: Parsed<Seq<T>>,
)
    ensures
        extend(
            done,
            skipped,
            match rest {
                Ok((items, m)) => Ok((item + items, n + m)),
                Err(e) => Err(e),
            },
        ) == extend(done + item, skipped + n, rest),
{
    match rest {
        Ok((items, m)) => {
            assert(done + (item + items) =~= (done + item) + items);
        },
        Err(_) => {},
    }
}

/// An argument list spans at least one token and ends inside the tokens.
pub proof fn lemma_arguments_span(ts: Seq<TokenView>, pos: int)
    requires
        0 <= pos,
    ensures
        arguments(ts, pos) matches Ok((args, n)) ==> 1 <= n && pos + n <= ts.len() && args.len()
            >= 1,
    decreases tokens_left(ts, pos), 5nat,
{
    lemma_expression_span(ts, pos, Precedence::Undefined);
    match expression(ts, pos, Precedence::Undefined) {
        Ok((_, n)) => {
            if at(ts, pos + n, TokenView::Keyword(Keyword::E)) {
                lemma_arguments_span(ts, pos + n + 1);
            }
        },
        Err(_) => {},
    }
}

/// An expression spans at least one token and ends inside the tokens.
pub proof fn lemma_expression_span(ts: Seq<TokenView>, pos: int, min_precedence: Precedence)
    requires
        0 <= pos,
    ensures
        expression(ts, pos, min_precedence) matches Ok((_, n)) ==> 1 <= n && pos + n <= ts.len(),
    decreases tokens_left(ts, pos), 4nat,
{
    match unary(ts, pos) {
        Ok((lhs, n)) => {
            lemma_operations_span(ts, pos + n, lhs, min_precedence);
        },
        Err(_) => {},
    }
}

/// The operations that follow an expression end inside the tokens.
pub proof fn lemma_operations_span(
    ts: Seq<TokenView>,
    pos: int,
    lhs: ExpressionView,
    min_precedence: Precedence,
)
    requires
        0 <= pos <= ts.len(),
    ensures
        operations(ts, pos, lhs, min_precedence) matches Ok((_, n)) ==> pos + n <= ts.len(),
    decreases tokens_left(ts, pos), 3nat,
{
    match token_at(ts, pos) {
        None => {},
        Some(token) => match operator_of(token) {
            None => {},
            Some(kind) => {
                if !(precedence_of(kind).rank() < min_precedence.rank()) {
                    lemma_expression_span(ts, pos + 1, precedence_of(kind).successor());
                    match expression(ts, pos + 1, precedence_of(kind).successor()) {
                        Ok((rhs, n)) => {
                            lemma_operations_span(
                                ts,
                                pos + 1 + n,
                                ExpressionView::Binary {
                                    kind,
                                    lhs: Box::new(lhs),
                                    rhs: Box::new(rhs),
                                },
                                min_precedence,
                            );
                        },
                        Err(_) => {},
                    }
                }
            },
        },
    }
}

/// A parameter list spans at least two tokens, ends inside the tokens and
/// holds at least one parameter.
pub proof fn lemma_parameters_span(ts: Seq<TokenView>, pos: int)
    requires
        0 <= pos,
    ensures
        parameters(ts, pos) matches Ok((ps, n)) ==> 2 <= n && pos + n <= ts.len() && ps.len() >= 1,
    decreases tokens_left(ts, pos),
{
    if at(ts, pos + 2, TokenView::Keyword(Keyword::En)) {
        lemma_parameters_span(ts, pos + 3);
    }
}

/// A signature ends inside the tokens.
pub proof fn lemma_signature_span(ts: Seq<TokenView>, pos: int)
    requires
        0 <= pos <= ts.len(),
    ensures
        signature(ts, pos) matches Ok((_, n)) ==> pos + n <= ts.len(),
{
    lemma_parameters_span(ts, pos + 1);
    lemma_parameters_span(ts, pos + 3);
}

/// A statement spans at least one token and ends inside the tokens.
pub proof fn lemma_statement_span(ts: Seq<TokenView>, pos: int)
    requires
        0 <= pos,
    ensures
        statement(ts, pos) matches Ok((_, n)) ==> 1 <= n && pos + n <= ts.len(),
        exit(ts, pos) matches Ok((_, n)) ==> 1 <= n && pos + n <= ts.len(),
        declaration(ts, pos) matches Ok((_, n)) ==> 1 <= n && pos + n <= ts.len(),
        assignment(ts, pos) matches Ok((_, n)) ==> 1 <= n && pos + n <= ts.len(),
        returning(ts, pos) matches Ok((_, n)) ==> 1 <= n && pos + n <= ts.len(),
        call_statement(ts, pos) matches Ok((_, n)) ==> 1 <= n && pos + n <= ts.len(),
        parenthesis(ts, pos) matches Ok((_, n)) ==> 1 <= n && pos + n <= ts.len(),
        conditional(ts, pos) matches Ok((_, n)) ==> 1 <= n && pos + n <= ts.len(),
    decreases tokens_left(ts, pos), 6nat,
{
    lemma_expression_span(ts, pos + 1, Precedence::Undefined);
    lemma_expression_span(ts, pos + 2, Precedence::Undefined);
    if pos < ts.len() {
        lemma_function_span(ts, pos);
        lemma_block_span(ts, pos + 1, Some(TokenView::Symbol(Symbol::CloseParenthesis)));
        match expression(ts, pos + 1, Precedence::Undefined) {
            Ok((_, n)) => {
                if at(ts, pos + 1 + n, TokenView::Keyword(Keyword::La)) {
                    lemma_block_span(ts, pos + 2 + n, Some(TokenView::Phrase(Phrase::OPini)));
                }
            },
            Err(_) => {},
        }
    }
}

/// A function spans at least two tokens and ends inside the tokens.
pub proof fn lemma_function_span(ts: Seq<TokenView>, pos: int)
    requires
        0 <= pos,
    ensures
        function(ts, pos) matches Ok((_, n)) ==> 2 <= n && pos + n <= ts.len(),
    decreases tokens_left(ts, pos), 5nat,
{
    if at(ts, pos, TokenView::Keyword(Keyword::Pali)) && name(ts, pos + 1) is Ok {
        lemma_signature_span(ts, pos + 2);
        match signature(ts, pos + 2) {
            Ok((_, n)) => {
                if at(ts, pos + 2 + n, TokenView::Phrase(Phrase::LiPaliENi)) {
                    lemma_block_span(ts, pos + 3 + n, Some(TokenView::Phrase(Phrase::OPini)));
                }
            },
            Err(_) => {},
        }
    }
}

/// A block ends inside the tokens; a block of a whole program ends at
/// their end.
pub proof fn lemma_block_span(ts: Seq<TokenView>, pos: int, terminator: Option<TokenView>)
    requires
        0 <= pos <= ts.len(),
    ensures
        block(ts, pos, terminator) matches Ok((_, n)) ==> pos + n <= ts.len() && (terminator
            is None ==> pos + n == ts.len()),
    decreases tokens_left(ts, pos), 7nat,
{
    match token_at(ts, pos) {
        None => {},
        Some(token) => {
            if terminator == Some(token) {
            } else if is_separator(token) {
                lemma_block_span(ts, pos + 1, terminator);
            } else {
                lemma_statement_span(ts, pos);
                match statement(ts, pos) {
                    Ok((_, n)) => {
                        lemma_block_span(ts, pos + n, terminator);
                    },
                    Err(_) => {},
                }
            }
        },
    }
}

/// Whether the token at `i` is no raw part of an idiom: a keyword is one
/// that stands alone, and a call introducer is directly followed by a name.
pub open spec fn folded_at(ts: Seq<TokenView>, i: int) -> bool {
    &&& ts[i] matches TokenView::Keyword(k) ==> k.stands_alone()
    &&& ts[i] == TokenView::Phrase(Phrase::O) ==> name(ts, i + 1) is Ok
}

/// Whether no token from `from` up to `to` is a raw part of an idiom.
pub open spec fn folded(ts: Seq<TokenView>, from: int, to: int) -> bool {
    forall|i: int| from <= i < to ==> #[trigger] folded_at(ts, i)
}

/// The tokens of a unary expression are folded.
pub proof fn lemma_unary_folded(ts: Seq<TokenView>, pos: int)
    requires
        0 <= pos,
    ensures
        unary(ts, pos) matches Ok((_, n)) ==> folded(ts, pos, pos + n),
    decreases tokens_left(ts, pos), 2nat,
{
    if at(ts, pos, TokenView::Phrase(Phrase::O)) {
        lemma_call_folded(ts, pos);
    }
}

/// The tokens of a call are folded.
pub proof fn lemma_call_folded(ts: Seq<TokenView>, pos: int)
    requires
        0 <= pos,
    ensures
        call(ts, pos) matches Ok((_, n)) ==> folded(ts, pos, pos + n),
    decreases tokens_left(ts, pos), 1nat,
{
    if at(ts, pos, TokenView::Phrase(Phrase::O)) && at(ts, pos + 2, TokenView::Keyword(Keyword::E)) {
        lemma_arguments_folded(ts, pos + 3);
    }
}

/// The tokens of an argument list are folded.
pub proof fn lemma_arguments_folded(ts: Seq<TokenView>, pos: int)
    requires
        0 <= pos,
    ensures
        arguments(ts, pos) matches Ok((_, n)) ==> folded(ts, pos, pos + n),
    decreases tokens_left(ts, pos), 5nat,
{
    lemma_expression_folded(ts, pos, Precedence::Undefined);
    match expression(ts, pos, Precedence::Undefined) {
        Ok((_, n)) => {
            if at(ts, pos + n, TokenView::Keyword(Keyword::E)) {
                lemma_arguments_folded(ts, pos + n + 1);
            }
        },
        Err(_) => {},
    }
}

/// The tokens of an expression are folded.
pub proof fn lemma_expression_folded(ts: Seq<TokenView>, pos: int, min_precedence: Precedence)
    requires
        0 <= pos,
    ensures
        expression(ts, pos, min_precedence) matches Ok((_, n)) ==> folded(ts, pos, pos + n),
    decreases tokens_left(ts, pos), 4nat,
{
    lemma_unary_folded(ts, pos);
    match unary(ts, pos) {
        Ok((lhs, n)) => {
            lemma_operations_folded(ts, pos + n, lhs, min_precedence);
        },
        Err(_) => {},
    }
}

/// The tokens of the operations that follow an expression are folded.
pub proof fn lemma_operations_folded(
    ts: Seq<TokenView>,
    pos: int,
    lhs: ExpressionView,
    min_precedence: Precedence,
)
    requires
        0 <= pos <= ts.len(),
    ensures
        operations(ts, pos, lhs, min_precedence) matches Ok((_, n)) ==> folded(ts, pos, pos + n),
    decreases tokens_left(ts, pos), 3nat,
{
    match token_at(ts, pos) {
        None => {},
        Some(token) => match operator_of(token) {
            None => {},
            Some(kind) => {
                if !(precedence_of(kind).rank() < min_precedence.rank()) {
                    lemma_expression_folded(ts, pos + 1, precedence_of(kind).successor());
                    lemma_expression_span(ts, pos + 1, precedence_of(kind).successor());
                    match expression(ts, pos + 1, precedence_of(kind).successor()) {
                        Ok((rhs, n)) => {
                            lemma_operations_folded(
                                ts,
                                pos + 1 + n,
                                ExpressionView::Binary {
                                    kind,
                                    lhs: Box::new(lhs),
                                    rhs: Box::new(rhs),
                                },
                                min_precedence,
                            );
                        },
                        Err(_) => {},
                    }
                }
            },
        },
    }
}

/// The tokens of a parameter list are folded.
pub proof fn lemma_parameters_folded(ts: Seq<TokenView>, pos: int)
    requires
        0 <= pos,
    ensures
        parameters(ts, pos) matches Ok((_, n)) ==> folded(ts, pos, pos + n),
    decreases tokens_left(ts, pos),
{
    if at(ts, pos + 2, TokenView::Keyword(Keyword::En)) {
        lemma_parameters_folded(ts, pos + 3);
    }
}

/// The tokens of a signature are folded.
pub proof fn lemma_signature_folded(ts: Seq<TokenView>, pos: int)
    requires
        0 <= pos <= ts.len(),
    ensures
        signature(ts, pos) matches Ok((_, n)) ==> folded(ts, pos, pos + n),
{
    lemma_parameters_folded(ts, pos + 1);
    lemma_parameters_folded(ts, pos + 3);
}

/// The tokens of a statement are folded.
pub proof fn lemma_statement_folded(ts: Seq<TokenView>, pos: int)
    requires
        0 <= pos,
    ensures
        statement(ts, pos) matches Ok((_, n)) ==> folded(ts, pos, pos + n),
        exit(ts, pos) matches Ok((_, n)) ==> folded(ts, pos, pos + n),
        declaration(ts, pos) matches Ok((_, n)) ==> folded(ts, pos, pos + n),
        assignment(ts, pos) matches Ok((_, n)) ==> folded(ts, pos, pos + n),
        returning(ts, pos) matches Ok((_, n)) ==> folded(ts, pos, pos + n),
        call_statement(ts, pos) matches Ok((_, n)) ==> folded(ts, pos, pos + n),
        parenthesis(ts, pos) matches Ok((_, n)) ==> folded(ts, pos, pos + n),
        conditional(ts, pos) matches Ok((_, n)) ==> folded(ts, pos, pos + n),
    decreases tokens_left(ts, pos), 6nat,
{
    lemma_expression_folded(ts, pos + 1, Precedence::Undefined);
    lemma_expression_folded(ts, pos + 2, Precedence::Undefined);
    lemma_call_folded(ts, pos);
    if pos < ts.len() {
        lemma_function_folded(ts, pos);
        lemma_block_folded(ts, pos + 1, Some(TokenView::Symbol(Symbol::CloseParenthesis)));
        match expression(ts, pos + 1, Precedence::Undefined) {
            Ok((_, n)) => {
                if at(ts, pos + 1 + n, TokenView::Keyword(Keyword::La)) {
                    lemma_block_folded(ts, pos + 2 + n, Some(TokenView::Phrase(Phrase::OPini)));
                }
            },
            Err(_) => {},
        }
    }
}

/// The tokens of a function are folded.
pub proof fn lemma_function_folded(ts: Seq<TokenView>, pos: int)
    requires
        0 <= pos,
    ensures
        function(ts, pos) matches Ok((_, n)) ==> folded(ts, pos, pos + n),
    decreases tokens_left(ts, pos), 5nat,
{
    if at(ts, pos, TokenView::Keyword(Keyword::Pali)) && name(ts, pos + 1) is Ok {
        lemma_signature_folded(ts, pos + 2);
        match signature(ts, pos + 2) {
            Ok((_, n)) => {
                if at(ts, pos + 2 + n, TokenView::Phrase(Phrase::LiPaliENi)) {
                    lemma_block_folded(ts, pos + 3 + n, Some(TokenView::Phrase(Phrase::OPini)));
                }
            },
            Err(_) => {},
        }
    }
}

/// The tokens of a block are folded, where its terminator is a phrase or
/// a symbol or the end of the tokens.
pub proof fn lemma_block_folded(ts: Seq<TokenView>, pos: int, terminator: Option<TokenView>)
    requires
        0 <= pos <= ts.len(),
        terminator matches Some(t) ==> t is Symbol || (t is Phrase && t != TokenView::Phrase(
            Phrase::O,
        )),
    ensures
        block(ts, pos, terminator) matches Ok((_, n)) ==> folded(ts, pos, pos + n),
    decreases tokens_left(ts, pos), 7nat,
{
    match token_at(ts, pos) {
        None => {},
        Some(token) => {
            if terminator == Some(token) {
            } else if is_separator(token) {
                lemma_block_folded(ts, pos + 1, terminator);
            } else {
                lemma_statement_folded(ts, pos);
                lemma_statement_span(ts, pos);
                match statement(ts, pos) {
                    Ok((_, n)) => {
                        lemma_block_folded(ts, pos + n, terminator);
                    },
                    Err(_) => {},
                }
            }
        },
    }
}

/// In every sequence of tokens that the grammar accepts as a program,
/// each multi-word idiom stands as one phrase token: no keyword token is a
/// particle that only occurs inside an idiom, and every call introducer is
/// directly followed by the name of the function.
pub proof fn lemma_program_folded(ts: Seq<TokenView>)
    ensures
        program(ts) is Ok ==> folded(ts, 0, ts.len() as int),
{
    lemma_block_folded(ts, 0, None);
    lemma_block_span(ts, 0, None);
}

/// Every function definition that the grammar yields has a body that ends
/// in a return from the function.
pub proof fn lemma_function_body_returns(ts: Seq<TokenView>, pos: int)
    ensures
        function(ts, pos) matches Ok((NodeView::Function { body, .. }, _)) ==> body.len() > 0
            && body.last() is Return,
{
}

} // verus!
