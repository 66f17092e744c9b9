use vstd::prelude::*;

use super::expression_statement::Expression;
use super::Identifier;

verus! {

/// Declared for completeness; no grammar rule of this core produces it.
#[derive(Debug, PartialEq)]
pub struct VariableDeclaration {
    pub id: Identifier,
    pub init: Expression,
    pub range: (usize, usize),
}

} // verus!
