use vstd::prelude::*;

use crate::ast::nodes::expression_statement::IdentifierExpression;
use crate::ast::nodes::Identifier;
use crate::ast::parser::AstParser;
use crate::ast::parsers::parts::remaining;
use crate::ast::{AstErrorType, AstParseError};
use crate::tokenizer::TokenType;

verus! {

/// Reads the single identifier token at `index` as an identifier expression,
/// counting one used token; any other token is a mismatch reported at the
/// cursor.
pub fn parse_identifier(parser: &AstParser, index: usize, used_tokens: &mut usize) -> (r: Result<
    IdentifierExpression,
    AstParseError,
>)
    requires
        parser.wf(),
        *old(used_tokens) + remaining(parser.toks(), index as int) + 2 <= usize::MAX,
    ensures
        if index < parser.toks().len() && parser.toks()[index as int].token_type
            == TokenType::Identifier {
            &&& r matches Ok(ie) && ie.identifier.name@ == parser.toks()[index as int].value@
                && ie.identifier.range == parser.toks()[index as int].range && ie.identifier.loc
                == parser.toks()[index as int].loc
            &&& *final(used_tokens) == *old(used_tokens) + 1
        } else {
            &&& r matches Err(e) && e.error_type == AstErrorType::UnexpectedToken && e.index
                == parser.index
            &&& *final(used_tokens) == *old(used_tokens)
        },
{
    match parser.token_at(index) {
        Some(token) => {
            if !matches!(token.token_type, TokenType::Identifier) {
                return Err(
                    AstParseError {
                        error_type: AstErrorType::UnexpectedToken,
                        index: parser.get_current_index(),
                    },
                );
            }

            *used_tokens = *used_tokens + 1;

            let identifier = Identifier::from(token);

            Ok(IdentifierExpression { identifier })
        },
        None => Err(
            AstParseError {
                error_type: AstErrorType::UnexpectedToken,
                index: parser.get_current_index(),
            },
        ),
    }
}

} // verus!
