use vstd::prelude::*;

use crate::ast::nodes::expression_statement::CallExpression;
use crate::ast::parser::AstParser;
use crate::ast::parsers::parts::remaining;
use crate::ast::parsers::parts::sequence::{
    argument_list_at, argument_list_count, lemma_argument_list_closing, operands_from,
    parse_sequence,
};
use crate::ast::parsers::util::{closed_param_tok, open_param_tok, string_is_char};
use crate::ast::{AstErrorType, AstParseError};
use crate::tokenizer::{Separator, TokenType};

use super::identifier::parse_identifier;

verus! {

fn is_start_parenthesis(parser: &AstParser, index: usize) -> (r: bool)
    ensures
        r == (index < parser.toks().len() && open_param_tok(parser.toks()[index as int])),
{
    match parser.token_at(index) {
        Some(token) => {
            if matches!(token.token_type, TokenType::Separator(Separator::Parenthesis)) {
                return string_is_char(&token.value, '(');
            }

            false
        },
        None => false,
    }
}

fn is_end_parenthesis(parser: &AstParser, index: usize) -> (r: bool)
    ensures
        r == (index < parser.toks().len() && parser.toks()[index as int].token_type
            == TokenType::Separator(Separator::Parenthesis) && parser.toks()[index as int].value@
            == seq![')']),
{
    match parser.token_at(index) {
        Some(token) => {
            if matches!(token.token_type, TokenType::Separator(Separator::Parenthesis)) {
                return string_is_char(&token.value, ')');
            }

            false
        },
        None => false,
    }
}

/// `identifier '(' [sequence] ')'`. A missing opening bracket right after
/// the identifier is the speculative "does not start here" signal; a
/// malformed argument list after the brackets have been committed is a real
/// error.
pub fn parse_function_call(parser: &AstParser, index: usize, tokens_used: &mut usize) -> (r: Result<
    CallExpression,
    AstParseError,
>)
    requires
        parser.wf(),
        *old(tokens_used) + remaining(parser.toks(), index as int) + 2 <= usize::MAX,
    ensures
        r matches Ok(ce) ==> {
            &&& index < parser.toks().len() && parser.toks()[index as int].token_type
                == TokenType::Identifier
            &&& ce.callee.name@ == parser.toks()[index as int].value@
            &&& ce.callee.range == parser.toks()[index as int].range
            &&& index + 1 < parser.toks().len() && open_param_tok(parser.toks()[index + 1])
            &&& *final(tokens_used) >= *old(tokens_used) + 3
            &&& *final(tokens_used) - *old(tokens_used) <= remaining(
                parser.toks(),
                index as int,
            )
            &&& parser.toks()[index + (*final(tokens_used) - *old(tokens_used))
                - 1].token_type == TokenType::Separator(Separator::Parenthesis)
        },
        r matches Err(e) ==> *final(tokens_used) == *old(tokens_used) && (e.error_type
            == AstErrorType::UnexpectedTokenStart || e.error_type == AstErrorType::UnexpectedToken),
        !(index < parser.toks().len() && parser.toks()[index as int].token_type
            == TokenType::Identifier) ==> (r matches Err(e) && e.error_type
            == AstErrorType::UnexpectedToken && e.index == parser.index),
        index < parser.toks().len() && parser.toks()[index as int].token_type
            == TokenType::Identifier && !(index + 1 < parser.toks().len() && open_param_tok(
            parser.toks()[index + 1],
        )) ==> (r matches Err(e) && e.error_type == AstErrorType::UnexpectedTokenStart && e.index
            == parser.index),
        index + 1 < parser.toks().len() && parser.toks()[index as int].token_type
            == TokenType::Identifier && open_param_tok(parser.toks()[index + 1]) && index + 2
            >= parser.toks().len() ==> (r matches Err(e) && e.error_type
            == AstErrorType::UnexpectedToken),
        index + 2 < parser.toks().len() && parser.toks()[index as int].token_type
            == TokenType::Identifier && open_param_tok(parser.toks()[index + 1])
            && closed_param_tok(parser.toks()[index + 2]) ==> (r matches Ok(ce)
            && ce.arguments@.len() == 0 && *final(tokens_used) == *old(tokens_used) + 3),
        index + 1 < parser.toks().len() && parser.toks()[index as int].token_type
            == TokenType::Identifier && open_param_tok(parser.toks()[index + 1])
            && argument_list_at(parser.toks(), index + 2) ==> (r matches Ok(ce)
            && ce.arguments@.len() == argument_list_count(parser.toks(), index + 2)
            && operands_from(
            ce.arguments@,
            parser.toks(),
            index + 2,
            index + 2 + 2 * ce.arguments@.len(),
        ) && *final(tokens_used) == *old(tokens_used) + 2 + 2 * ce.arguments@.len()),
    decreases remaining(parser.toks(), index as int), 1int,
{
    let mut tokens: usize = 0;

    let function_name = match parse_identifier(parser, index, &mut tokens) {
        Ok(v) => v,
        Err(e) => {
            return Err(e);
        },
    };

    // Check for start param
    if !is_start_parenthesis(parser, index + tokens) {
        return Err(
            AstParseError {
                error_type: AstErrorType::UnexpectedTokenStart,
                index: parser.get_current_index(),
            },
        );
    } else {
        tokens = tokens + 1;
    }

    let arguments;

    if !is_end_parenthesis(parser, index + tokens) {
        proof {
            if argument_list_at(parser.toks(), index + 2) {
                lemma_argument_list_closing(parser.toks(), index + 2);
            }
        }
        let sequence = match parse_sequence(parser, index + tokens, &mut tokens) {
            Ok(s) => s,
            Err(e) => {
                return Err(e);
            },
        };
        arguments = sequence.expressions;

        if !is_end_parenthesis(parser, index + tokens) {
            return Err(
                AstParseError {
                    error_type: AstErrorType::UnexpectedToken,
                    index: parser.get_current_index(),
                },
            );
        } else {
            tokens = tokens + 1;
        }
    } else {
        arguments = Vec::new();
        tokens = tokens + 1;
    }

    *tokens_used = *tokens_used + tokens;

    let call_expression = CallExpression { callee: function_name.identifier, arguments };

    Ok(call_expression)
}

} // verus!
