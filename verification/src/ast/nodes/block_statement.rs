use vstd::prelude::*;

use super::AstNode;

verus! {

/// `{ statement* }`, with the source span from the opening to the closing
/// brace.
#[derive(Debug, PartialEq)]
pub struct BlockStatement {
    pub body: Vec<AstNode>,
    pub range: (usize, usize),
}

} // verus!
