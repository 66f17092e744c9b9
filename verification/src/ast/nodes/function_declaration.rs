use vstd::prelude::*;

use super::block_statement::BlockStatement;
use super::Identifier;

verus! {

/// `function name(parameter, ...) { ... }`.
#[derive(Debug, PartialEq)]
pub struct FunctionDeclaration {
    pub id: Identifier,
    pub params: Vec<Identifier>,
    pub body: BlockStatement,
    pub range: (usize, usize),
}

} // verus!
