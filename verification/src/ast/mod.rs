use vstd::prelude::*;

use crate::tokenizer::Token;

use self::nodes::AstNode;

pub mod nodes;
pub mod parser;
pub mod parsers;

verus! {

/// The three ways a parse can fail. `UnexpectedTokenStart` is a speculative
/// signal: ordered choice maps it to "this rule does not apply here" and it
/// never escapes the expression-statement dispatcher.
#[derive(Debug, PartialEq, Eq, Structural, Clone, Copy)]
pub enum AstErrorType {
    UnexpectedToken,
    UnexpectedTokenStart,
    UnexpectedEndOfInput,
}

/// A successful probe: the constructed value and the half-open range of
/// token indices it would consume.
#[derive(Debug)]
pub struct SearchResult<T> {
    pub value: T,
    pub ast_range: (usize, usize),
}

/// A parse failure, tagged with the token index at which it was detected.
#[derive(Debug, PartialEq)]
pub struct AstParseError {
    pub index: usize,
    pub error_type: AstErrorType,
}

/// The root of the tree: an ordered sequence of statements.
#[derive(Debug, PartialEq)]
pub struct Program {
    pub body: Vec<AstNode>,
}

impl Default for Program {
    fn default() -> (r: Self)
        ensures
            r.body@.len() == 0,
    {
        Self { body: Vec::new() }
    }
}

/// Parses a whole token sequence into a program; see `parser::parse`.
pub fn parse(tokens: &Vec<Token>) -> (r: Result<Program, AstParseError>)
    requires
        tokens@.len() + 2 <= usize::MAX,
    ensures
        tokens@.len() == 0 ==> (r matches Ok(p) && p.body@.len() == 0),
        r matches Ok(p) ==> p.body@.len() <= tokens@.len(),
        r matches Ok(p) ==> forall|j: int|
            0 <= j < p.body@.len() ==> (#[trigger] p.body@[j]) is ExpressionStatement || p.body@[j]
                is BlockStatement,
        tokens@.len() > 0 && parsers::block_statements::closed_brace_tok(tokens@[0]) ==> (r matches
            Err(e) && e.error_type == AstErrorType::UnexpectedToken && e.index == 0),
        parser::lone_statement_run(tokens@, 0) ==> (r matches Ok(p) && p.body@.len()
            == parser::lone_statement_run_count(tokens@, 0) && parser::lone_statements_match(
            p.body@,
            tokens@,
            0,
            tokens@.len() as int,
        )),
        r matches Err(e) ==> e.error_type != AstErrorType::UnexpectedTokenStart,
{
    parser::parse(tokens)
}

} // verus!
