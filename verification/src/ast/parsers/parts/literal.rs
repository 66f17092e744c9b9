use vstd::prelude::*;

use crate::ast::nodes::expression_statement::LiteralExpression;
use crate::ast::nodes::Literal;
use crate::ast::parser::AstParser;
use crate::ast::parsers::parts::remaining;
use crate::ast::{AstErrorType, AstParseError};
use crate::tokenizer::TokenType;

verus! {

/// Reads the single literal token at `index` as a literal expression,
/// counting one used token; any other token is a mismatch reported at the
/// cursor.
pub fn parse_literal(parser: &AstParser, index: usize, used_tokens: &mut usize) -> (r: Result<
    LiteralExpression,
    AstParseError,
>)
    requires
        parser.wf(),
        *old(used_tokens) + remaining(parser.toks(), index as int) + 2 <= usize::MAX,
    ensures
        if index < parser.toks().len() && (parser.toks()[index as int].token_type is Literal) {
            &&& r matches Ok(le) && le.value.value@ == parser.toks()[index as int].value@
                && le.value.raw@ == parser.toks()[index as int].raw_value@ && le.value.range
                == parser.toks()[index as int].range && le.value.loc == parser.toks()[index as int].loc
            &&& *final(used_tokens) == *old(used_tokens) + 1
        } else {
            &&& r matches Err(e) && e.error_type == AstErrorType::UnexpectedToken && e.index
                == parser.index
            &&& *final(used_tokens) == *old(used_tokens)
        },
{
    match parser.token_at(index) {
        Some(token) => {
            if !matches!(token.token_type, TokenType::Literal(_)) {
                return Err(
                    AstParseError {
                        error_type: AstErrorType::UnexpectedToken,
                        index: parser.get_current_index(),
                    },
                );
            }

            *used_tokens = *used_tokens + 1;

            let literal = Literal::from(token);

            Ok(LiteralExpression { value: literal })
        },
        None => Err(
            AstParseError {
                error_type: AstErrorType::UnexpectedToken,
                index: parser.get_current_index(),
            },
        ),
    }
}

} // verus!
