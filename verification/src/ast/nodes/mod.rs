use vstd::prelude::*;

use crate::tokenizer::{FileLocation, Token};

use self::block_statement::BlockStatement;
use self::expression_statement::ExpressionStatement;
use self::function_declaration::FunctionDeclaration;

pub mod block_statement;
pub mod expression_statement;
pub mod function_declaration;
pub mod variable_declaration;

verus! {

/// A literal value in the tree: the token's semantic value, its raw source
/// text, and where it stood.
#[derive(Debug, PartialEq)]
pub struct Literal {
    pub value: String,
    pub raw: String,
    pub range: (usize, usize),
    pub loc: FileLocation,
}

impl Literal {
    /// Builds the node from a literal token, copying its payload, raw text,
    /// range and location.
    pub fn from(token: &Token) -> (r: Literal)
        ensures
            r.value@ == token.value@,
            r.raw@ == token.raw_value@,
            r.range == token.range,
            r.loc == token.loc,
    {
        Literal {
            value: token.value.clone(),
            range: token.range,
            raw: token.raw_value.clone(),
            loc: token.loc,
        }
    }
}

/// A name in the tree, with where it stood.
#[derive(Debug, PartialEq)]
pub struct Identifier {
    pub name: String,
    pub range: (usize, usize),
    pub loc: FileLocation,
}

impl Identifier {
    /// Builds the node from an identifier token, copying its name, range and
    /// location.
    pub fn from(token: &Token) -> (r: Identifier)
        ensures
            r.name@ == token.value@,
            r.range == token.range,
            r.loc == token.loc,
    {
        Identifier { name: token.value.clone(), range: token.range, loc: token.loc }
    }
}

/// A statement of the program.
#[derive(Debug, PartialEq)]
pub enum AstNode {
    ExpressionStatement(ExpressionStatement),
    BlockStatement(BlockStatement),
    FunctionDeclaration(FunctionDeclaration),
}

} // verus!
