//! Binary operators and the precedence ladder that orders them.

use vstd::prelude::*;

verus! {

/// The kind of a binary expression.
#[derive(Clone, Copy, Debug, PartialEq, Eq, Structural)]
pub enum BinaryExpressionType {
    Add,
    Multiply,
    Subtract,
    Divide,
    GreaterThan,
    Equals,
    LessThan,
}

/// A rung of the precedence ladder, lowest first.
#[derive(Clone, Copy, Debug, PartialEq, Eq, Structural)]
pub enum Precedence {
    Undefined,
    Comparing,
    Linear,
    Scaling,
    Unary,
    TheBiggest,
}

impl Precedence {
    /// The height of this rung on the ladder: 0 for `Undefined`, 5 for
    /// `TheBiggest`.
    pub open spec fn rank(self) -> nat {
        match self {
            Precedence::Undefined => 0,
            Precedence::Comparing => 1,
            Precedence::Linear => 2,
            Precedence::Scaling => 3,
            Precedence::Unary => 4,
            Precedence::TheBiggest => 5,
        }
    }

    /// The rung one above `self`, or `self` at the top.
    pub open spec fn successor(self) -> Precedence {
        match self {
            Precedence::Undefined => Precedence::Comparing,
            Precedence::Comparing => Precedence::Linear,
            Precedence::Linear => Precedence::Scaling,
            Precedence::Scaling => Precedence::Unary,
            Precedence::Unary => Precedence::TheBiggest,
            Precedence::TheBiggest => Precedence::TheBiggest,
        }
    }

    /// Advances one rung, saturating at the top.
    pub fn next(&self) -> (r: Precedence)
        ensures
            r == self.successor(),
            r.rank() == if self.rank() < 5 { self.rank() + 1 } else { 5 },
    {
        match self {
            Precedence::Undefined => Precedence::Comparing,
            Precedence::Comparing => Precedence::Linear,
            Precedence::Linear => Precedence::Scaling,
            Precedence::Scaling => Precedence::Unary,
            Precedence::Unary => Precedence::TheBiggest,
            Precedence::TheBiggest => Precedence::TheBiggest,
        }
    }

    /// The rank as a machine integer.
    pub fn level(&self) -> (r: u8)
        ensures
            r == self.rank(),
    {
        match self {
            Precedence::Undefined => 0,
            Precedence::Comparing => 1,
            Precedence::Linear => 2,
            Precedence::Scaling => 3,
            Precedence::Unary => 4,
            Precedence::TheBiggest => 5,
        }
    }

    /// Whether `self` binds less tightly than `other`.
    pub fn below(&self, other: &Precedence) -> (r: bool)
        ensures
            r == (self.rank() < other.rank()),
    {
        self.level() < other.level()
    }
}

/// The precedence of each binary operator: comparisons bind loosest, then
/// addition and subtraction, then multiplication and division.
pub open spec fn precedence_of(kind: BinaryExpressionType) -> Precedence {
    match kind {
        BinaryExpressionType::Add | BinaryExpressionType::Subtract => Precedence::Linear,
        BinaryExpressionType::Multiply | BinaryExpressionType::Divide => Precedence::Scaling,
        BinaryExpressionType::GreaterThan
        | BinaryExpressionType::Equals
        | BinaryExpressionType::LessThan => Precedence::Comparing,
    }
}

/// Looks up the precedence of a binary operator.
pub fn get_precedence(binary_expression_type: BinaryExpressionType) -> (r: Precedence)
    ensures
        r == precedence_of(binary_expression_type),
{
    match binary_expression_type {
        BinaryExpressionType::Add | BinaryExpressionType::Subtract => Precedence::Linear,
        BinaryExpressionType::Multiply | BinaryExpressionType::Divide => Precedence::Scaling,
        BinaryExpressionType::GreaterThan
        | BinaryExpressionType::Equals
        | BinaryExpressionType::LessThan => Precedence::Comparing,
    }
}

/// Climbing the ladder never descends, and the top rung is a fixed point.
pub proof fn lemma_successor_climbs(p: Precedence)
    ensures
        p.rank() <= p.successor().rank() <= 5,
        p.rank() < 5 ==> p.successor().rank() == p.rank() + 1,
        p == Precedence::TheBiggest ==> p.successor() == p,
{
}

} // verus!
