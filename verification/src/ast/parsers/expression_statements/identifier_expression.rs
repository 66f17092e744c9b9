use vstd::prelude::*;

use crate::ast::nodes::expression_statement::{
    Expression, ExpressionStatement, IdentifierExpression,
};
use crate::ast::parser::{spec_asi, AstParser};
use crate::ast::parsers::parts::identifier::parse_identifier;
use crate::ast::parsers::util::{
    closed_param_tok, is_closed_param_bracket, is_open_param_bracket, open_param_tok,
    param_separator_tok, terminator_tok,
};
use crate::ast::{AstErrorType, AstParseError, SearchResult};
use crate::tokenizer::{Separator, Token, TokenType};

use super::{consume_result, identifier_tok, FindResult};

verus! {

/// An identifier expression's end marker at `m`: a statement end, or a
/// bracket of a parameter list.
pub open spec fn identifier_ended_at(tokens: Seq<Token>, m: int) -> bool {
    if m >= tokens.len() {
        true
    } else {
        ||| terminator_tok(tokens[m])
        ||| param_separator_tok(tokens[m])
        ||| open_param_tok(tokens[m])
        ||| closed_param_tok(tokens[m])
        ||| (m > 0 && spec_asi(tokens, m - 1))
    }
}

pub fn is_identifier_expression_statement(parser: &AstParser) -> (r: bool)
    requires
        parser.wf(),
    ensures
        r == (parser.index < parser.toks().len() && identifier_tok(
            parser.toks()[parser.index as int],
        ) && identifier_ended_at(parser.toks(), parser.index + 1)),
{
    if let Ok(response) = find(parser) {
        return response.is_some();
    }

    false
}

fn check_if_identifier_expression_has_ended(parser: &AstParser, start_index: usize) -> (r: bool)
    requires
        parser.wf(),
        start_index == parser.index,
    ensures
        r == identifier_ended_at(parser.toks(), start_index + 1),
{
    let index = start_index + 1;
    let end_marker = parser.token_at(index);

    match end_marker {
        Some(marker) => {
            if matches!(marker.token_type, TokenType::Separator(Separator::Terminator)) {
                return true;
            }

            if matches!(marker.token_type, TokenType::Separator(Separator::Comma)) {
                return true;
            }

            if is_open_param_bracket(parser, index) {
                return true;
            }

            if is_closed_param_bracket(parser, index) {
                return true;
            }

            if index > 0 && parser.can_insert_automatic_semicolon(index - 1) {
                return true;
            }

            return false;
        },
        None => {
            return true;
        },
    }
}

/// Parses and commits one identifier expression statement: `find` followed
/// by consuming the matched single-token span.
pub fn parse_identifier_expression_statement(parser: &mut AstParser) -> (r: Result<
    ExpressionStatement,
    AstParseError,
>)
    requires
        old(parser).wf(),
    ensures
        final(parser).wf(),
        final(parser).toks() == old(parser).toks(),
        if old(parser).index < old(parser).toks().len() && identifier_tok(
            old(parser).toks()[old(parser).index as int],
        ) && identifier_ended_at(old(parser).toks(), old(parser).index + 1) {
            &&& *final(parser) == old(parser).advanced((old(parser).index + 1) as usize)
            &&& r matches Ok(es) && (es.expression matches Expression::Identifier(ie)
                && ie.identifier.name@ == old(parser).toks()[old(parser).index as int].value@
                && ie.identifier.range == old(parser).toks()[old(parser).index as int].range)
        } else {
            &&& *final(parser) == *old(parser)
            &&& r matches Err(e) && e.error_type == AstErrorType::UnexpectedToken
        },
{
    match find(parser) {
        Ok(Some(result)) => Ok(consume_result(parser, result)),
        Ok(None) => Err(
            AstParseError {
                error_type: AstErrorType::UnexpectedToken,
                index: parser.get_current_index(),
            },
        ),
        Err(e) => Err(e),
    }
}

/// A single identifier token followed by a valid end marker: matched without
/// moving the cursor. An identifier not followed by one (two adjacent
/// identifiers on one line, say) is a real error, as is any other token.
pub fn find(parser: &AstParser) -> (r: FindResult<ExpressionStatement>)
    requires
        parser.wf(),
    ensures
        if parser.index < parser.toks().len() && identifier_tok(
            parser.toks()[parser.index as int],
        ) {
            if identifier_ended_at(parser.toks(), parser.index + 1) {
                r matches Ok(Some(sr)) && sr.ast_range.0 == parser.index && sr.ast_range.1
                    == parser.index + 1 && sr.value.range == parser.toks()[parser.index as int].range
                    && (sr.value.expression matches Expression::Identifier(ie)
                    && ie.identifier.name@ == parser.toks()[parser.index as int].value@
                    && ie.identifier.range == parser.toks()[parser.index as int].range)
            } else {
                r matches Err(e) && e.error_type == AstErrorType::UnexpectedToken && e.index
                    == parser.index
            }
        } else {
            r matches Err(e) && e.error_type == AstErrorType::UnexpectedToken && e.index
                == parser.index
        },
{
    let start_index = parser.get_current_index();

    let mut used_tokens: usize = 0;
    let identifier_expression = match parse_identifier(parser, start_index, &mut used_tokens) {
        Ok(ie) => ie,
        Err(e) => {
            return Err(e);
        },
    };
    let identifier = identifier_expression.identifier;

    if !check_if_identifier_expression_has_ended(parser, start_index) {
        return Err(
            AstParseError {
                error_type: AstErrorType::UnexpectedToken,
                index: parser.get_current_index(),
            },
        );
    }

    let literal_start = identifier.range.0;
    let literal_end = identifier.range.1;

    let ast_start = parser.get_current_index();
    let ast_end = ast_start + used_tokens;

    let expression = IdentifierExpression { identifier };

    let expression_statement = ExpressionStatement {
        expression: Expression::Identifier(expression),
        range: (literal_start, literal_end),
    };

    Ok(
        Some(
            SearchResult::<ExpressionStatement> {
                value: expression_statement,
                ast_range: (ast_start, ast_end),
            },
        ),
    )
}

} // verus!
