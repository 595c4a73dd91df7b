use vstd::prelude::*;

use crate::location::{LocV, Location};
use crate::token::Symbol;

verus! {

/// A literal (for example: `231`).
#[derive(Debug, PartialEq)]
pub struct Literal {
    pub node: LiteralKind,
    pub location: Location,
}

#[derive(Debug, PartialEq)]
pub enum LiteralKind {
    Integer(Symbol),
}

/// A binary operation (for example: `a + b` or `a * b`).
#[derive(Clone, Copy, Debug, PartialEq, Eq, Structural)]
pub enum BinaryOperation {
    Add,
    Subtract,
    Multiply,
    Divide,
}

/// An expression: a literal or a binary operation over two owned
/// subexpressions, stamped with the location of its first lexeme.
#[derive(Debug, PartialEq)]
pub struct Expression {
    pub node: ExpressionKind,
    pub location: Location,
}

#[derive(Debug, PartialEq)]
pub enum ExpressionKind {
    Literal(Box<Literal>),
    Binary(BinaryOperation, Box<Expression>, Box<Expression>),
}

/// The mathematical model of a `Literal`.
pub ghost struct LiteralV {
    pub node: LiteralKindV,
    pub location: LocV,
}

pub ghost enum LiteralKindV {
    Integer(Seq<char>),
}

/// The mathematical model of an `Expression`.
pub ghost struct ExprV {
    pub node: ExprKindV,
    pub location: LocV,
}

pub ghost enum ExprKindV {
    Literal(Box<LiteralV>),
    Binary(BinaryOperation, Box<ExprV>, Box<ExprV>),
}

impl Clone for Literal {
    fn clone(&self) -> (r: Self)
        ensures
            r == *self,
    {
        Literal {
            node: match &self.node {
                LiteralKind::Integer(value) => LiteralKind::Integer(value.clone()),
            },
            location: self.location,
        }
    }
}

impl Clone for Expression {
    fn clone(&self) -> (r: Self)
        ensures
            r == *self,
    {
        clone_expression(self)
    }
}

/// A deep copy of an expression tree.
fn clone_expression(e: &Expression) -> (r: Expression)
    ensures
        r == *e,
    decreases *e,
{
    Expression {
        node: match &e.node {
            ExpressionKind::Literal(lit) => ExpressionKind::Literal(Box::new((**lit).clone())),
            ExpressionKind::Binary(op, a, b) => ExpressionKind::Binary(
                *op,
                Box::new(clone_expression(a)),
                Box::new(clone_expression(b)),
            ),
        },
        location: e.location,
    }
}

impl View for Literal {
    type V = LiteralV;

    open spec fn view(&self) -> LiteralV {
        LiteralV {
            node: match &self.node {
                LiteralKind::Integer(value) => LiteralKindV::Integer(value@),
            },
            location: self.location@,
        }
    }
}

impl View for Expression {
    type V = ExprV;

    open spec fn view(&self) -> ExprV
        decreases self,
    {
        ExprV {
            node: match &self.node {
                ExpressionKind::Literal(lit) => ExprKindV::Literal(Box::new((**lit)@)),
                ExpressionKind::Binary(op, a, b) => ExprKindV::Binary(
                    *op,
                    Box::new((**a)@),
                    Box::new((**b)@),
                ),
            },
            location: self.location@,
        }
    }
}

} // verus!
