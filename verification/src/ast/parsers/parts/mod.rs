use vstd::prelude::*;

use crate::ast::nodes::expression_statement::Expression;
use crate::ast::parser::AstParser;
use crate::ast::{AstErrorType, AstParseError};
use crate::tokenizer::Token;

use self::binary_operation::parse_binary_operation;
use self::function_call::parse_function_call;
use self::identifier::parse_identifier;
use self::literal::parse_literal;

pub mod binary_operation;
pub mod function_call;
pub mod identifier;
pub mod literal;
pub mod sequence;

verus! {

/// How many tokens are left from position `index` on; zero past the end.
pub open spec fn remaining(tokens: Seq<Token>, index: int) -> int {
    if index <= tokens.len() {
        tokens.len() - index
    } else {
        0
    }
}

/// Tries the non-sequence expression forms at `index` in fixed order:
/// binary operation, function call, literal, identifier.
pub fn parse_non_sequence_expression(parser: &AstParser, index: usize, tokens_used: &mut usize) -> (r:
    Result<Expression, AstParseError>)
    requires
        parser.wf(),
        *old(tokens_used) + remaining(parser.toks(), index as int) + 2 <= usize::MAX,
    ensures
        r is Ok ==> *old(tokens_used) < *final(tokens_used) && *final(tokens_used) - *old(
            tokens_used,
        ) <= remaining(parser.toks(), index as int),
        r matches Err(e) ==> *final(tokens_used) == *old(tokens_used) && e.error_type
            == AstErrorType::UnexpectedToken,
    decreases remaining(parser.toks(), index as int), 6int,
{
    if let Ok(result) = parse_binary_operation(parser, index, tokens_used) {
        return Ok(Expression::BinaryExpression(result));
    }

    if let Ok(result) = parse_function_call(parser, index, tokens_used) {
        return Ok(Expression::CallExpression(result));
    }

    if let Ok(result) = parse_literal(parser, index, tokens_used) {
        return Ok(Expression::Literal(result));
    }

    if let Ok(result) = parse_identifier(parser, index, tokens_used) {
        return Ok(Expression::Identifier(result));
    }

    Err(
        AstParseError {
            error_type: AstErrorType::UnexpectedToken,
            index: parser.get_current_index(),
        },
    )
}

} // verus!
