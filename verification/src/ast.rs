//! The syntax tree: expressions and statements, and their mathematical
//! values.

use vstd::prelude::*;
use crate::precedence::BinaryExpressionType;

verus! {

/// The mathematical value of an expression.
pub enum ExpressionView {
    /// An integer literal.
    Number(int),
    /// A reference to a variable, by name.
    Variable(Seq<char>),
    /// A call of a function with its arguments in source order.
    Call { name: Seq<char>, arguments: Seq<ExpressionView> },
    /// A string literal.
    Text(Seq<char>),
    /// An operator between two expressions.
    Binary { kind: BinaryExpressionType, lhs: Box<ExpressionView>, rhs: Box<ExpressionView> },
}

/// The mathematical value of a statement.
pub enum NodeView {
    /// `o tawa`: leave the program with the value of an expression.
    Exit(ExpressionView),
    /// `o sin e`: declare a variable of a type.
    Declare { var_type: Seq<char>, name: Seq<char> },
    /// `li kama sama`: assign the value of an expression to a variable.
    Assign { name: Seq<char>, value: ExpressionView },
    /// `pali` with a body: define a function. Each parameter is a type and
    /// a name.
    Function {
        name: Seq<char>,
        parameters: Seq<(Seq<char>, Seq<char>)>,
        return_type: Option<Seq<char>>,
        body: Seq<NodeView>,
    },
    /// `pali` without a body: declare a function that is defined elsewhere.
    External {
        name: Seq<char>,
        parameters: Seq<(Seq<char>, Seq<char>)>,
        return_type: Option<Seq<char>>,
    },
    /// `o` with a name: call a function and drop what it returns.
    Call { name: Seq<char>, arguments: Seq<ExpressionView> },
    /// `tenpo pi`: run a body if a condition is not zero.
    If { condition: ExpressionView, body: Seq<NodeView> },
    /// `o weka`: return from a function, with or without a value.
    Return(Option<ExpressionView>),
    /// Statements between parentheses, in a scope of their own.
    Block(Seq<NodeView>),
}

/// A reference to a variable, or any other name.
#[derive(Debug, PartialEq, Eq)]
pub struct NimiExpression {
    pub value: String,
}

/// A string literal.
#[derive(Debug, PartialEq, Eq)]
pub struct LinjaExpression {
    pub value: String,
}

/// An integer literal.
#[derive(Debug, PartialEq, Eq)]
pub struct NanpaExpression {
    pub value: i64,
}

/// A call of a function.
#[derive(Debug, PartialEq, Eq)]
pub struct OExpression {
    pub nimi: NimiExpression,
    pub params: Vec<Expression>,
}

/// An expression without an operator at its top.
#[derive(Debug, PartialEq, Eq)]
pub enum UnaryExpression {
    Nanpa(NanpaExpression),
    Nimi(NimiExpression),
    O(OExpression),
    Linja(LinjaExpression),
}

/// An operator between two expressions.
#[derive(Debug, PartialEq, Eq)]
pub struct BinaryExpression {
    pub lhs: Box<Expression>,
    pub rhs: Box<Expression>,
    pub kind: BinaryExpressionType,
}

/// An expression.
#[derive(Debug, PartialEq, Eq)]
pub enum Expression {
    Unary(UnaryExpression),
    Binary(BinaryExpression),
}

/// The views of a vector of expressions, in order.
pub open spec fn expressions_view(expressions: Seq<Expression>) -> Seq<ExpressionView>
    decreases expressions,
{
    Seq::new(
        expressions.len(),
        |i: int|
            if 0 <= i < expressions.len() {
                expressions[i].model()
            } else {
                ExpressionView::Number(0)
            },
    )
}

impl OExpression {
    pub open spec fn model(self) -> ExpressionView
        decreases self,
    {
        ExpressionView::Call {
            name: self.nimi.value@,
            arguments: expressions_view(self.params@),
        }
    }
}

impl UnaryExpression {
    pub open spec fn model(self) -> ExpressionView
        decreases self,
    {
        match self {
            UnaryExpression::Nanpa(n) => ExpressionView::Number(n.value as int),
            UnaryExpression::Nimi(n) => ExpressionView::Variable(n.value@),
            UnaryExpression::O(o) => o.model(),
            UnaryExpression::Linja(l) => ExpressionView::Text(l.value@),
        }
    }
}

impl BinaryExpression {
    pub open spec fn model(self) -> ExpressionView
        decreases self,
    {
        ExpressionView::Binary {
            kind: self.kind,
            lhs: Box::new(self.lhs.model()),
            rhs: Box::new(self.rhs.model()),
        }
    }
}

impl Expression {
    pub open spec fn model(self) -> ExpressionView
        decreases self,
    {
        match self {
            Expression::Unary(u) => u.model(),
            Expression::Binary(b) => b.model(),
        }
    }
}

impl View for NimiExpression {
    type V = ExpressionView;

    open spec fn view(&self) -> ExpressionView {
        ExpressionView::Variable(self.value@)
    }
}

impl View for LinjaExpression {
    type V = ExpressionView;

    open spec fn view(&self) -> ExpressionView {
        ExpressionView::Text(self.value@)
    }
}

impl View for NanpaExpression {
    type V = ExpressionView;

    open spec fn view(&self) -> ExpressionView {
        ExpressionView::Number(self.value as int)
    }
}

impl View for OExpression {
    type V = ExpressionView;

    open spec fn view(&self) -> ExpressionView {
        self.model()
    }
}

impl View for UnaryExpression {
    type V = ExpressionView;

    open spec fn view(&self) -> ExpressionView {
        self.model()
    }
}

impl View for BinaryExpression {
    type V = ExpressionView;

    open spec fn view(&self) -> ExpressionView {
        self.model()
    }
}

impl View for Expression {
    type V = ExpressionView;

    open spec fn view(&self) -> ExpressionView {
        self.model()
    }
}

/// `o tawa`: return from the program.
#[derive(Debug, PartialEq, Eq)]
pub struct OtawaStatement {
    pub expr: Expression,
}

/// `o weka`: return from a function.
#[derive(Debug, PartialEq, Eq)]
pub struct OWekaStatement {
    pub expr: Option<Expression>,
}

/// `o sin e`: a variable declaration. The variable starts out without a
/// value.
#[derive(Debug, PartialEq, Eq)]
pub struct OSinStatement {
    pub var_type: String,
    pub name: NimiExpression,
}

/// `li kama sama`: an assignment.
#[derive(Debug, PartialEq, Eq)]
pub struct LiKamaSamaStatement {
    pub nimi: NimiExpression,
    pub expression: Expression,
}

/// `pali` with a body: a function definition.
#[derive(Debug, PartialEq, Eq)]
pub struct PaliStatement {
    pub nimi: NimiExpression,
    pub params: Vec<(String, NimiExpression)>,
    pub nodes: Vec<Node>,
    pub retval: Option<String>,
}

/// `pali` without a body: the declaration of an external function.
#[derive(Debug, PartialEq, Eq)]
pub struct PaliDeclaration {
    pub nimi: NimiExpression,
    pub params: Vec<(String, NimiExpression)>,
    pub retval: Option<String>,
}

/// `tenpo pi`: a conditional block.
#[derive(Debug, PartialEq, Eq)]
pub struct TenpoStatement {
    pub expr: Expression,
    pub nodes: Vec<Node>,
}

/// Statements between parentheses.
#[derive(Debug, PartialEq, Eq)]
pub struct Parenthesis {
    pub nodes: Vec<Node>,
}

/// A statement.
#[derive(Debug, PartialEq, Eq)]
pub enum Node {
    LiKamaSama(LiKamaSamaStatement),
    Tenpo(TenpoStatement),
    Otawa(OtawaStatement),
    OSin(OSinStatement),
    Pali(PaliStatement),
    PaliDeclaration(PaliDeclaration),
    O(OExpression),
    OWeka(OWekaStatement),
    Parenthesis(Parenthesis),
}

/// The views of a parameter list: each parameter as its type and its name.
pub open spec fn parameters_view(params: Seq<(String, NimiExpression)>) -> Seq<
    (Seq<char>, Seq<char>),
> {
    Seq::new(params.len(), |i: int| (params[i].0@, params[i].1.value@))
}

/// The view of an optional piece of text.
pub open spec fn optional_text(text: Option<String>) -> Option<Seq<char>> {
    match text {
        Some(s) => Some(s@),
        None => None,
    }
}

/// The views of a vector of statements, in order.
pub open spec fn nodes_view(nodes: Seq<Node>) -> Seq<NodeView>
    decreases nodes,
{
    Seq::new(
        nodes.len(),
        |i: int|
            if 0 <= i < nodes.len() {
                nodes[i].model()
            } else {
                NodeView::Return(None)
            },
    )
}

impl OtawaStatement {
    pub open spec fn model(self) -> NodeView {
        NodeView::Exit(self.expr@)
    }
}

impl OWekaStatement {
    pub open spec fn model(self) -> NodeView {
        NodeView::Return(
            match self.expr {
                Some(e) => Some(e@),
                None => None,
            },
        )
    }
}

impl OSinStatement {
    pub open spec fn model(self) -> NodeView {
        NodeView::Declare { var_type: self.var_type@, name: self.name.value@ }
    }
}

impl LiKamaSamaStatement {
    pub open spec fn model(self) -> NodeView {
        NodeView::Assign { name: self.nimi.value@, value: self.expression@ }
    }
}

impl PaliDeclaration {
    pub open spec fn model(self) -> NodeView {
        NodeView::External {
            name: self.nimi.value@,
            parameters: parameters_view(self.params@),
            return_type: optional_text(self.retval),
        }
    }
}

impl PaliStatement {
    pub open spec fn model(self) -> NodeView
        decreases self,
    {
        NodeView::Function {
            name: self.nimi.value@,
            parameters: parameters_view(self.params@),
            return_type: optional_text(self.retval),
            body: nodes_view(self.nodes@),
        }
    }
}

impl TenpoStatement {
    pub open spec fn model(self) -> NodeView
        decreases self,
    {
        NodeView::If { condition: self.expr@, body: nodes_view(self.nodes@) }
    }
}

impl Parenthesis {
    pub open spec fn model(self) -> NodeView
        decreases self,
    {
        NodeView::Block(nodes_view(self.nodes@))
    }
}

impl Node {
    pub open spec fn model(self) -> NodeView
        decreases self,
    {
        match self {
            Node::LiKamaSama(s) => s.model(),
            Node::Tenpo(s) => s.model(),
            Node::Otawa(s) => s.model(),
            Node::OSin(s) => s.model(),
            Node::Pali(s) => s.model(),
            Node::PaliDeclaration(s) => s.model(),
            Node::O(o) => NodeView::Call {
                name: o.nimi.value@,
                arguments: expressions_view(o.params@),
            },
            Node::OWeka(s) => s.model(),
            Node::Parenthesis(p) => p.model(),
        }
    }
}

impl View for OtawaStatement {
    type V = NodeView;

    open spec fn view(&self) -> NodeView {
        self.model()
    }
}

impl View for OWekaStatement {
    type V = NodeView;

    open spec fn view(&self) -> NodeView {
        self.model()
    }
}

impl View for OSinStatement {
    type V = NodeView;

    open spec fn view(&self) -> NodeView {
        self.model()
    }
}

impl View for LiKamaSamaStatement {
    type V = NodeView;

    open spec fn view(&self) -> NodeView {
        self.model()
    }
}

impl View for PaliDeclaration {
    type V = NodeView;

    open spec fn view(&self) -> NodeView {
        self.model()
    }
}

impl View for PaliStatement {
    type V = NodeView;

    open spec fn view(&self) -> NodeView {
        self.model()
    }
}

impl View for TenpoStatement {
    type V = NodeView;

    open spec fn view(&self) -> NodeView {
        self.model()
    }
}

impl View for Parenthesis {
    type V = NodeView;

    open spec fn view(&self) -> NodeView {
        self.model()
    }
}

impl View for Node {
    type V = NodeView;

    open spec fn view(&self) -> NodeView {
        self.model()
    }
}

} // verus!
