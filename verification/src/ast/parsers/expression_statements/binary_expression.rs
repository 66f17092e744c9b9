use vstd::prelude::*;

use crate::ast::nodes::expression_statement::{Expression, ExpressionStatement};
use crate::ast::parser::AstParser;
use crate::ast::parsers::parts::binary_operation::{
    binary_chain_at, binary_triple_at, dangling_operator_at, flat_call_at, flat_call_end,
    folds_operands, left_folded, operator_chain_at, parse_binary_operation,
    single_operand_matches,
};
use crate::ast::parsers::util::open_param_tok;
use crate::ast::{AstErrorType, AstParseError, SearchResult};

use crate::tokenizer::{Separator, TokenType};

use super::{expression_ended_at, expression_has_ended, span_last_tok, FindResult};

verus! {

pub fn is_binary_expression_statement(parser: &AstParser) -> (r: bool)
    requires
        parser.wf(),
    ensures
        r ==> parser.index < parser.toks().len(),
        parser.index < parser.toks().len() && (parser.toks()[parser.index as int].token_type
            is Literal) && !(parser.index + 1 < parser.toks().len() && parser.toks()[parser.index
            + 1].token_type == TokenType::Operator) ==> !r,
        parser.index < parser.toks().len() && parser.toks()[parser.index as int].token_type
            == TokenType::Identifier && !(parser.index + 1 < parser.toks().len() && open_param_tok(
            parser.toks()[parser.index + 1],
        )) && !(parser.index + 1 < parser.toks().len() && parser.toks()[parser.index
            + 1].token_type == TokenType::Operator) ==> !r,
        binary_triple_at(parser.toks(), parser.index as int) && expression_ended_at(
            parser.toks(),
            parser.index + 3,
        ) ==> r,
        binary_chain_at(parser.toks(), parser.index as int) && expression_ended_at(
            parser.toks(),
            parser.index + 5,
        ) ==> r,
{
    if let Ok(response) = find(parser) {
        return response.is_some();
    }

    false
}

/// A binary operation followed by a statement end, matched without moving
/// the cursor; the matched span includes the end token. The statement's
/// `range` covers the source from the first operand token to the last
/// operand token. "No binary expression starts here" is a benign mismatch;
/// a malformed one past its first operator is a real error.
pub fn find(parser: &AstParser) -> (r: FindResult<ExpressionStatement>)
    requires
        parser.wf(),
    ensures
        r matches Ok(Some(sr)) ==> {
            &&& sr.ast_range.0 == parser.index
            &&& parser.index < sr.ast_range.1 <= parser.toks().len()
            &&& parser.index < parser.toks().len()
            &&& sr.value.expression is BinaryExpression
            &&& sr.ast_range.0 <= span_last_tok(parser.toks(), sr.ast_range.1 as int)
                < parser.toks().len()
            &&& sr.value.range.0 == parser.toks()[parser.index as int].range.0
            &&& sr.value.range.1 == parser.toks()[span_last_tok(
                parser.toks(),
                sr.ast_range.1 as int,
            )].range.1
        },
        r matches Err(e) ==> e.error_type == AstErrorType::UnexpectedToken,
        parser.index < parser.toks().len() && (parser.toks()[parser.index as int].token_type
            is Literal) && !(parser.index + 1 < parser.toks().len() && parser.toks()[parser.index
            + 1].token_type == TokenType::Operator) ==> r matches Ok(
            None::<SearchResult<ExpressionStatement>>,
        ),
        parser.index < parser.toks().len() && parser.toks()[parser.index as int].token_type
            == TokenType::Identifier && !(parser.index + 1 < parser.toks().len() && open_param_tok(
            parser.toks()[parser.index + 1],
        )) && !(parser.index + 1 < parser.toks().len() && parser.toks()[parser.index
            + 1].token_type == TokenType::Operator) ==> r matches Ok(
            None::<SearchResult<ExpressionStatement>>,
        ),
        binary_triple_at(parser.toks(), parser.index as int) && expression_ended_at(
            parser.toks(),
            parser.index + 3,
        ) ==> (r matches Ok(Some(sr)) && (sr.value.expression matches
            Expression::BinaryExpression(b) && folds_operands(b, parser.toks(), parser.index as int))),
        binary_chain_at(parser.toks(), parser.index as int) && expression_ended_at(
            parser.toks(),
            parser.index + 5,
        ) ==> (r matches Ok(Some(sr)) && (sr.value.expression matches
            Expression::BinaryExpression(b) && b.operator@ == parser.toks()[parser.index
            + 3].raw_value@ && (*b.left matches Expression::BinaryExpression(bl)
            && folds_operands(bl, parser.toks(), parser.index as int)) && single_operand_matches(
            *b.right,
            parser.toks()[parser.index + 4],
        ))),
        forall|n: int|
            #[trigger] operator_chain_at(parser.toks(), parser.index as int, n) && !(parser.index
                + 2 * n + 1 < parser.toks().len() && parser.toks()[parser.index + 2 * n
                + 1].token_type == TokenType::Operator) && expression_ended_at(
                parser.toks(),
                parser.index + 2 * n + 1,
            ) ==> (r matches Ok(Some(sr)) && (sr.value.expression matches
            Expression::BinaryExpression(b) && left_folded(
                b,
                parser.toks(),
                parser.index as int,
                n,
            ))),
        forall|n: int|
            #[trigger] dangling_operator_at(parser.toks(), parser.index as int, n) ==> (r matches
                Err(e) && e.error_type == AstErrorType::UnexpectedToken),
        flat_call_at(parser.toks(), parser.index as int) && !(flat_call_end(
            parser.toks(),
            parser.index as int,
        ) < parser.toks().len() && parser.toks()[flat_call_end(
            parser.toks(),
            parser.index as int,
        )].token_type == TokenType::Operator) ==> r matches Ok(
            None::<SearchResult<ExpressionStatement>>,
        ),
{
    let start_index = parser.get_current_index();
    let mut used_tokens: usize = 0;

    let binary_expression = match parse_binary_operation(parser, start_index, &mut used_tokens) {
        Ok(exp) => exp,
        Err(err) => {
            match err.error_type {
                AstErrorType::UnexpectedTokenStart => {
                    return Ok(None);
                },
                _ => {
                    return Err(err);
                },
            }
        },
    };

    if !expression_has_ended(parser, start_index + used_tokens - 1) {
        return Err(
            AstParseError {
                error_type: AstErrorType::UnexpectedToken,
                index: parser.get_current_index(),
            },
        );
    }

    // the statement's range covers the operand tokens
    let literal_start = parser.token_at(start_index).unwrap().range.0;
    let literal_end = parser.token_at(start_index + used_tokens - 1).unwrap().range.1;

    // a terminator or comma standing as the end marker is part of the
    // committed span; an end inferred from a line break, a closing brace or
    // the input end consumes nothing
    let marker = parser.token_at(start_index + used_tokens);
    let marker_is_separator = match marker {
        Some(t) => matches!(t.token_type, TokenType::Separator(Separator::Terminator))
            || matches!(t.token_type, TokenType::Separator(Separator::Comma)),
        None => false,
    };
    if marker_is_separator {
        used_tokens = used_tokens + 1;
    }

    let ast_start = start_index;
    let ast_end = ast_start + used_tokens;

    let expression_statement = ExpressionStatement {
        expression: Expression::BinaryExpression(binary_expression),
        range: (literal_start, literal_end),
    };

    Ok(
        Some(
            SearchResult::<ExpressionStatement> {
                value: expression_statement,
                ast_range: (ast_start, ast_end),
            },
        ),
    )
}

} // verus!
