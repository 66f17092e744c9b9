use vstd::prelude::*;

use crate::ast::nodes::expression_statement::{Expression, ExpressionStatement};
use crate::ast::parser::AstParser;
use crate::ast::parsers::parts::function_call::parse_function_call;
use crate::ast::parsers::parts::sequence::{
    argument_list_at, argument_list_count, operands_from,
};
use crate::ast::parsers::util::{closed_param_tok, open_param_tok};
use crate::ast::{AstErrorType, AstParseError, SearchResult};
use crate::tokenizer::{Separator, TokenType};

use super::{expression_ended_at, expression_has_ended, span_last_tok, FindResult};

verus! {

pub fn is_call_expression_statement(parser: &AstParser) -> (r: bool)
    requires
        parser.wf(),
    ensures
        r ==> parser.index < parser.toks().len(),
        !(parser.index < parser.toks().len() && parser.toks()[parser.index as int].token_type
            == TokenType::Identifier && parser.index + 1 < parser.toks().len() && open_param_tok(
            parser.toks()[parser.index + 1],
        )) ==> !r,
        parser.index + 1 < parser.toks().len() && parser.toks()[parser.index as int].token_type
            == TokenType::Identifier && open_param_tok(parser.toks()[parser.index + 1])
            && parser.index + 2 >= parser.toks().len() ==> !r,
        parser.index + 2 < parser.toks().len() && parser.toks()[parser.index as int].token_type
            == TokenType::Identifier && open_param_tok(parser.toks()[parser.index + 1])
            && closed_param_tok(parser.toks()[parser.index + 2]) && expression_ended_at(
            parser.toks(),
            parser.index + 3,
        ) ==> r,
        parser.index + 1 < parser.toks().len() && parser.toks()[parser.index as int].token_type
            == TokenType::Identifier && open_param_tok(parser.toks()[parser.index + 1])
            && argument_list_at(parser.toks(), parser.index + 2) && expression_ended_at(
            parser.toks(),
            parser.index + 2 + 2 * argument_list_count(parser.toks(), parser.index + 2),
        ) ==> r,
{
    if let Ok(response) = find(parser) {
        return response.is_some();
    }

    false
}

/// `identifier '(' ... ')'` followed by a statement end, matched without
/// moving the cursor; the matched span includes the end token, and the
/// statement's `range` covers the whole call. Every
/// failure of the call parse itself, even a malformed argument list, is
/// reported as a benign mismatch so that the next rule can be tried; only a
/// parsed call that is not followed by a statement end is a real error.
pub fn find(parser: &AstParser) -> (r: FindResult<ExpressionStatement>)
    requires
        parser.wf(),
    ensures
        r matches Err(e) ==> e.error_type == AstErrorType::UnexpectedToken,
        !(parser.index < parser.toks().len() && parser.toks()[parser.index as int].token_type
            == TokenType::Identifier && parser.index + 1 < parser.toks().len() && open_param_tok(
            parser.toks()[parser.index + 1],
        )) ==> r matches Ok(None::<SearchResult<ExpressionStatement>>),
        parser.index + 1 < parser.toks().len() && parser.toks()[parser.index as int].token_type
            == TokenType::Identifier && open_param_tok(parser.toks()[parser.index + 1])
            && parser.index + 2 >= parser.toks().len() ==> r matches Ok(
            None::<SearchResult<ExpressionStatement>>,
        ),
        parser.index + 2 < parser.toks().len() && parser.toks()[parser.index as int].token_type
            == TokenType::Identifier && open_param_tok(parser.toks()[parser.index + 1])
            && closed_param_tok(parser.toks()[parser.index + 2]) && expression_ended_at(
            parser.toks(),
            parser.index + 3,
        ) ==> (r matches Ok(Some(sr)) && (sr.value.expression matches Expression::CallExpression(
            ce,
        ) && ce.arguments@.len() == 0 && ce.callee.name@ == parser.toks()[parser.index as int].value@)),
        parser.index + 2 < parser.toks().len() && parser.toks()[parser.index as int].token_type
            == TokenType::Identifier && open_param_tok(parser.toks()[parser.index + 1])
            && closed_param_tok(parser.toks()[parser.index + 2]) && !expression_ended_at(
            parser.toks(),
            parser.index + 3,
        ) ==> (r matches Err(e) && e.error_type == AstErrorType::UnexpectedToken),
        parser.index + 1 < parser.toks().len() && parser.toks()[parser.index as int].token_type
            == TokenType::Identifier && open_param_tok(parser.toks()[parser.index + 1])
            && argument_list_at(parser.toks(), parser.index + 2) && expression_ended_at(
            parser.toks(),
            parser.index + 2 + 2 * argument_list_count(parser.toks(), parser.index + 2),
        ) ==> (r matches Ok(Some(sr)) && (sr.value.expression matches
            Expression::CallExpression(ce) && ce.callee.name@ == parser.toks()[parser.index as int].value@
            && ce.arguments@.len() == argument_list_count(parser.toks(), parser.index + 2)
            && operands_from(
            ce.arguments@,
            parser.toks(),
            parser.index + 2,
            parser.index + 2 + 2 * ce.arguments@.len(),
        ))),
        r matches Ok(Some(sr)) ==> {
            &&& sr.ast_range.0 == parser.index
            &&& parser.index < sr.ast_range.1 <= parser.toks().len()
            &&& parser.index < parser.toks().len()
            &&& parser.toks()[parser.index as int].token_type == TokenType::Identifier
            &&& parser.index + 1 < parser.toks().len() && open_param_tok(
                parser.toks()[parser.index + 1],
            )
            &&& sr.ast_range.0 <= span_last_tok(parser.toks(), sr.ast_range.1 as int)
                < parser.toks().len()
            &&& sr.value.range.0 == parser.toks()[parser.index as int].range.0
            &&& sr.value.range.1 == parser.toks()[span_last_tok(
                parser.toks(),
                sr.ast_range.1 as int,
            )].range.1
            &&& (sr.value.expression matches Expression::CallExpression(ce) && ce.callee.name@
                == parser.toks()[parser.index as int].value@)
        },
{
    let start_index = parser.get_current_index();
    let mut used_tokens: usize = 0;

    let call_expression = match parse_function_call(parser, start_index, &mut used_tokens) {
        Ok(ce) => ce,
        Err(_) => {
            return Ok(None);
        },
    };

    if !expression_has_ended(parser, start_index + used_tokens - 1) {
        return Err(
            AstParseError {
                error_type: AstErrorType::UnexpectedToken,
                index: parser.get_current_index(),
            },
        );
    }

    // the statement's range covers the whole call, callee to closing bracket
    let literal_start = parser.token_at(start_index).unwrap().range.0;
    let literal_end = parser.token_at(start_index + used_tokens - 1).unwrap().range.1;

    // a terminator or comma standing as the end marker is part of the
    // committed span; an end inferred from a line break, a closing brace or
    // the input end consumes nothing
    let marker = parser.token_at(start_index + used_tokens);
    let marker_is_separator = match marker {
        Some(t) => matches!(t.token_type, TokenType::Separator(Separator::Terminator))
            || matches!(t.token_type, TokenType::Separator(Separator::Comma)),
        None => false,
    };
    if marker_is_separator {
        used_tokens = used_tokens + 1;
    }

    let ast_start = start_index;
    let ast_end = ast_start + used_tokens;

    let expression_statement = ExpressionStatement {
        expression: Expression::CallExpression(call_expression),
        range: (literal_start, literal_end),
    };

    Ok(
        Some(
            SearchResult::<ExpressionStatement> {
                value: expression_statement,
                ast_range: (ast_start, ast_end),
            },
        ),
    )
}

} // verus!
