use vstd::prelude::*;

use crate::ast::nodes::expression_statement::{Expression, ExpressionStatement};
use crate::ast::parser::AstParser;
use crate::ast::parsers::parts::literal::parse_literal;
use crate::ast::{AstErrorType, AstParseError, SearchResult};
use crate::tokenizer::{Separator, TokenType};

use super::{expression_ended_at, literal_tok, FindResult};

verus! {

pub fn is_literal_expression_statement(parser: &AstParser) -> (r: bool)
    requires
        parser.wf(),
    ensures
        r == (parser.index < parser.toks().len() && literal_tok(
            parser.toks()[parser.index as int],
        ) && expression_ended_at(parser.toks(), parser.index + 1)),
{
    if let Ok(response) = find(parser) {
        return response.is_some();
    }

    false
}

/// A single literal token followed by a statement end: matched without
/// moving the cursor. A literal that is not followed by a statement end is
/// a real error; any other token is a benign mismatch.
fn check_if_expression_has_ended(parser: &AstParser, start_index: usize) -> (r: bool)
    requires
        parser.wf(),
        start_index == parser.index,
    ensures
        r == expression_ended_at(parser.toks(), start_index + 1),
{
    let end_marker = parser.peek();

    match end_marker {
        Some(marker) => {
            if matches!(marker.token_type, TokenType::Separator(Separator::Terminator)) {
                return true;
            }

            if matches!(marker.token_type, TokenType::Separator(Separator::Comma)) {
                return true;
            }

            let index = start_index + 1;
            if index > 0 && parser.can_insert_automatic_semicolon(index - 1) {
                return true;
            }

            return false;
        },
        None => {
            return true;
        },
    }
}

pub fn find(parser: &AstParser) -> (r: FindResult<ExpressionStatement>)
    requires
        parser.wf(),
    ensures
        if parser.index < parser.toks().len() && literal_tok(
            parser.toks()[parser.index as int],
        ) {
            if expression_ended_at(parser.toks(), parser.index + 1) {
                r matches Ok(Some(sr)) && sr.ast_range.0 == parser.index && sr.ast_range.1
                    == parser.index + 1 && sr.value.range == parser.toks()[parser.index as int].range
                    && (sr.value.expression matches Expression::Literal(le) && le.value.value@
                    == parser.toks()[parser.index as int].value@ && le.value.raw@ == parser.toks()[
                    parser.index as int].raw_value@ && le.value.range == parser.toks()[
                    parser.index as int].range)
            } else {
                r matches Err(e) && e.error_type == AstErrorType::UnexpectedToken && e.index
                    == parser.index
            }
        } else {
            r matches Ok(None::<SearchResult<ExpressionStatement>>)
        },
{
    let start_index = parser.get_current_index();

    let mut used_tokens: usize = 0;
    let literal_expression = match parse_literal(parser, start_index, &mut used_tokens) {
        Ok(le) => le,
        Err(_) => {
            return Ok(None);
        },
    };

    if !check_if_expression_has_ended(parser, start_index) {
        return Err(
            AstParseError {
                error_type: AstErrorType::UnexpectedToken,
                index: parser.get_current_index(),
            },
        );
    }

    let literal_start = literal_expression.value.range.0;
    let literal_end = literal_expression.value.range.1;

    let ast_start = parser.get_current_index();
    let ast_end = ast_start + used_tokens;

    let expression_statement = ExpressionStatement {
        expression: Expression::Literal(literal_expression),
        range: (literal_start, literal_end),
    };

    Ok(
        Some(
            SearchResult::<ExpressionStatement> {
                value: expression_statement,
                ast_range: (ast_start, ast_end),
            },
        ),
    )
}

} // verus!
