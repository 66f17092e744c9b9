use vstd::prelude::*;

use crate::ast::nodes::expression_statement::{Expression, ExpressionStatement};
use crate::ast::parser::AstParser;
use crate::ast::parsers::parts::sequence::{
    operand_chain_at, operand_chain_count, operand_chain_delta, operands_from, parse_sequence,
};
use crate::ast::parsers::util::terminator_tok;
use crate::ast::{AstErrorType, AstParseError, SearchResult};
use crate::tokenizer::{Separator, Token, TokenType};

use super::FindResult;

verus! {

/// A sequence's end marker at `m`: a terminator, or no token at all.
pub open spec fn sequence_ended_at(tokens: Seq<Token>, m: int) -> bool {
    m >= tokens.len() || terminator_tok(tokens[m])
}

/// The last token of the sequence's expressions inside a span ending at
/// `ast_end`: the span counts one position for the end marker, and a
/// terminator that the sequence itself consumed is not part of the covered
/// source either.
pub open spec fn sequence_span_last(tokens: Seq<Token>, ast_end: int) -> int {
    if 0 <= ast_end - 2 < tokens.len() && terminator_tok(tokens[ast_end - 2]) {
        ast_end - 3
    } else {
        ast_end - 2
    }
}

pub fn is_sequence_expression_statement(parser: &AstParser) -> (r: bool)
    requires
        parser.wf(),
    ensures
        r ==> parser.index < parser.toks().len(),
        operand_chain_at(parser.toks(), parser.index as int) && sequence_ended_at(
            parser.toks(),
            parser.index + operand_chain_delta(parser.toks(), parser.index as int),
        ) ==> r,
{
    if let Ok(response) = find(parser) {
        return response.is_some();
    }

    false
}

fn check_if_sequence_has_ended(parser: &AstParser, index: usize) -> (r: bool)
    ensures
        r == sequence_ended_at(parser.toks(), index as int),
{
    let end_marker = parser.token_at(index);

    match end_marker {
        Some(marker) => {
            if matches!(marker.token_type, TokenType::Separator(Separator::Terminator)) {
                return true;
            }

            false
        },
        None => {
            return true;
        },
    }
}

/// `expression (',' expression)*` ending at a terminator or the input end,
/// matched without moving the cursor; the matched span includes the end
/// token, and the statement's `range` covers the expressions. A sequence
/// whose element cannot be parsed is a real error.
pub fn find(parser: &AstParser) -> (r: FindResult<ExpressionStatement>)
    requires
        parser.wf(),
    ensures
        r matches Ok(Some(sr)) ==> {
            &&& sr.ast_range.0 == parser.index
            &&& parser.index < sr.ast_range.1 <= parser.toks().len() + 1
            &&& parser.index < parser.toks().len()
            &&& (sr.value.expression matches Expression::SequenceExpression(se)
                && se.expressions@.len() >= 1)
            &&& sr.ast_range.0 <= sequence_span_last(parser.toks(), sr.ast_range.1 as int)
                < parser.toks().len()
            &&& sr.value.range.0 == parser.toks()[parser.index as int].range.0
            &&& sr.value.range.1 == parser.toks()[sequence_span_last(
                parser.toks(),
                sr.ast_range.1 as int,
            )].range.1
        },
        r matches Err(e) ==> e.error_type == AstErrorType::UnexpectedToken,
        operand_chain_at(parser.toks(), parser.index as int) && sequence_ended_at(
            parser.toks(),
            parser.index + operand_chain_delta(parser.toks(), parser.index as int),
        ) ==> (r matches Ok(Some(sr)) && (sr.value.expression matches
            Expression::SequenceExpression(se) && se.expressions@.len() == operand_chain_count(
            parser.toks(),
            parser.index as int,
        ) && operands_from(
            se.expressions@,
            parser.toks(),
            parser.index as int,
            parser.index + 2 * se.expressions@.len(),
        ))),
{
    let start_index = parser.get_current_index();

    let mut used_tokens: usize = 0;
    let sequence = match parse_sequence(parser, start_index, &mut used_tokens) {
        Ok(s) => s,
        Err(e) => {
            return Err(e);
        },
    };

    if !check_if_sequence_has_ended(parser, start_index + used_tokens) {
        return Err(
            AstParseError {
                error_type: AstErrorType::UnexpectedToken,
                index: parser.get_current_index(),
            },
        );
    }

    // the statement's range covers the sequence's expressions, without a
    // terminator the sequence consumed as its own end marker
    let last_real = start_index + used_tokens - 1;
    let last_token = parser.token_at(last_real).unwrap();
    let span_last = if matches!(last_token.token_type, TokenType::Separator(Separator::Terminator)) {
        last_real - 1
    } else {
        last_real
    };
    let literal_start = parser.token_at(start_index).unwrap().range.0;
    let literal_end = parser.token_at(span_last).unwrap().range.1;

    // the end marker is part of the committed span
    used_tokens = used_tokens + 1;

    let ast_start = start_index;
    let ast_end = ast_start + used_tokens;

    let expression_statement = ExpressionStatement {
        expression: Expression::SequenceExpression(sequence),
        range: (literal_start, literal_end),
    };

    Ok(
        Some(
            SearchResult::<ExpressionStatement> {
                value: expression_statement,
                ast_range: (ast_start, ast_end),
            },
        ),
    )
}

} // verus!
