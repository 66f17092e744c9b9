use vstd::prelude::*;

use super::{Identifier, Literal};

verus! {

/// A literal used as an expression.
#[derive(Debug, PartialEq)]
pub struct LiteralExpression {
    pub value: Literal,
}

/// `left <operator> right`, built strictly left-associated in the order the
/// operators were encountered.
#[derive(Debug, PartialEq)]
pub struct BinaryExpression {
    pub operator: String,
    pub left: Box<Expression>,
    pub right: Box<Expression>,
}

/// `callee(argument, ...)`.
#[derive(Debug, PartialEq)]
pub struct CallExpression {
    pub callee: Identifier,
    pub arguments: Vec<Expression>,
}

/// Declared for completeness; no grammar rule of this core produces it.
#[derive(Debug, PartialEq)]
pub struct ObjectExpression {}

/// Declared for completeness; no grammar rule of this core produces it.
#[derive(Debug, PartialEq)]
pub struct ArrayExpression {}

/// `expression, expression, ...`.
#[derive(Debug, PartialEq)]
pub struct SequenceExpression {
    pub expressions: Vec<Expression>,
}

/// A bare identifier used as an expression.
#[derive(Debug, PartialEq)]
pub struct IdentifierExpression {
    pub identifier: Identifier,
}

/// An expression tree; sub-expressions are owned exclusively.
#[derive(Debug, PartialEq)]
pub enum Expression {
    Identifier(IdentifierExpression),
    Literal(LiteralExpression),
    BinaryExpression(BinaryExpression),
    CallExpression(CallExpression),
    ObjectExpression(ObjectExpression),
    SequenceExpression(SequenceExpression),
    ArrayExpression(ArrayExpression),
}

/// One expression standing as a statement, with the source span of the
/// tokens it was parsed from.
#[derive(Debug, PartialEq)]
pub struct ExpressionStatement {
    pub expression: Expression,
    pub range: (usize, usize),
}

} // verus!
