use vstd::prelude::*;

use crate::ast::nodes::expression_statement::{Expression, SequenceExpression};
use crate::ast::parser::AstParser;
use crate::ast::parsers::parts::binary_operation::{single_operand_at, single_operand_matches};
use crate::ast::parsers::parts::remaining;
use crate::ast::parsers::util::{closed_param_tok, param_separator_tok, string_is_char, terminator_tok};
use crate::ast::{AstErrorType, AstParseError};
use crate::tokenizer::{Separator, Token, TokenType};

use super::function_call::parse_function_call;
use super::identifier::parse_identifier;
use super::literal::parse_literal;

verus! {

/// The token at `i` ends a sequence: a closing brace, a closing bracket, a
/// terminator, or no token at all.
pub open spec fn end_marker_at(tokens: Seq<Token>, i: int) -> bool {
    if i >= tokens.len() {
        true
    } else if tokens[i].token_type == TokenType::Separator(Separator::CurlyBrace) {
        tokens[i].value@ == seq!['}']
    } else if tokens[i].token_type == TokenType::Separator(Separator::Parenthesis) {
        tokens[i].value@ == seq![')']
    } else {
        tokens[i].token_type == TokenType::Separator(Separator::Terminator)
    }
}

/// The end marker at `i` is a terminator token, which the sequence counts as
/// consumed.
pub open spec fn end_marker_eats(tokens: Seq<Token>, i: int) -> bool {
    0 <= i < tokens.len() && tokens[i].token_type == TokenType::Separator(Separator::Terminator)
}


/// `operand (',' operand)*` stands at `i` and runs to a terminator or the
/// end of the input, each operand a single literal or identifier token.
pub open spec fn operand_chain_at(tokens: Seq<Token>, i: int) -> bool
    decreases tokens.len() - i,
{
    if !single_operand_at(tokens, i) {
        false
    } else if i + 1 >= tokens.len() || terminator_tok(tokens[i + 1]) {
        true
    } else if param_separator_tok(tokens[i + 1]) {
        operand_chain_at(tokens, i + 2)
    } else {
        false
    }
}

/// How many operands such a chain holds.
pub open spec fn operand_chain_count(tokens: Seq<Token>, i: int) -> int
    decreases tokens.len() - i,
{
    if !single_operand_at(tokens, i) {
        0
    } else if i + 1 >= tokens.len() || terminator_tok(tokens[i + 1]) {
        1
    } else if param_separator_tok(tokens[i + 1]) {
        1 + operand_chain_count(tokens, i + 2)
    } else {
        0
    }
}

/// How many tokens parsing such a chain consumes: its operands, the commas
/// between them, and a closing terminator (but not a bare input end).
pub open spec fn operand_chain_delta(tokens: Seq<Token>, i: int) -> int
    decreases tokens.len() - i,
{
    if !single_operand_at(tokens, i) {
        0
    } else if i + 1 >= tokens.len() {
        1
    } else if terminator_tok(tokens[i + 1]) {
        2
    } else if param_separator_tok(tokens[i + 1]) {
        2 + operand_chain_delta(tokens, i + 2)
    } else {
        0
    }
}

/// `operand (',' operand)* ')'` stands at `i`: a flat, non-empty argument
/// list with its closing bracket.
pub open spec fn argument_list_at(tokens: Seq<Token>, i: int) -> bool
    decreases tokens.len() - i,
{
    if !single_operand_at(tokens, i) {
        false
    } else if i + 1 < tokens.len() && closed_param_tok(tokens[i + 1]) {
        true
    } else if i + 1 < tokens.len() && param_separator_tok(tokens[i + 1]) {
        argument_list_at(tokens, i + 2)
    } else {
        false
    }
}

/// How many arguments such a list holds.
pub open spec fn argument_list_count(tokens: Seq<Token>, i: int) -> int
    decreases tokens.len() - i,
{
    if !single_operand_at(tokens, i) {
        0
    } else if i + 1 < tokens.len() && closed_param_tok(tokens[i + 1]) {
        1
    } else if i + 1 < tokens.len() && param_separator_tok(tokens[i + 1]) {
        1 + argument_list_count(tokens, i + 2)
    } else {
        0
    }
}

/// A flat argument list's closing bracket stands right after its last
/// operand.
pub proof fn lemma_argument_list_closing(tokens: Seq<Token>, j: int)
    requires
        argument_list_at(tokens, j),
    ensures
        0 <= j + 2 * argument_list_count(tokens, j) - 1 < tokens.len(),
        closed_param_tok(tokens[j + 2 * argument_list_count(tokens, j) - 1]),
    decreases tokens.len() - j,
{
    if !(j + 1 < tokens.len() && closed_param_tok(tokens[j + 1])) {
        lemma_argument_list_closing(tokens, j + 2);
    }
}

/// `es` are exactly the one-token operand expressions standing at
/// `from, from + 2, ...` up to `to`, in source order.
pub open spec fn operands_from(
    es: Seq<Expression>,
    tokens: Seq<Token>,
    from: int,
    to: int,
) -> bool
    decreases
            (if from <= to {
                to - from
            } else {
                0
            })
        via operands_from_decreases
{
    if from >= to {
        es.len() == 0 && from == to
    } else {
        &&& es.len() > 0
        &&& 0 <= from < tokens.len()
        &&& single_operand_matches(es[0], tokens[from])
        &&& operands_from(es.drop_first(), tokens, from + 2, to)
    }
}

#[via_fn]
proof fn operands_from_decreases(es: Seq<Expression>, tokens: Seq<Token>, from: int, to: int) {
}

/// Appending the operand at the next chain position extends a matching list.
proof fn lemma_operands_from_snoc(
    es: Seq<Expression>,
    tokens: Seq<Token>,
    from: int,
    to: int,
    e: Expression,
)
    requires
        operands_from(es, tokens, from, to),
        0 <= to < tokens.len(),
        single_operand_matches(e, tokens[to]),
        from <= to,
    ensures
        operands_from(es.push(e), tokens, from, to + 2),
    decreases
            (if from <= to {
                to - from
            } else {
                0
            }),
{
    if from >= to {
        assert(es.push(e).drop_first() =~= Seq::<Expression>::empty());
        assert(es.push(e)[0] == e);
        assert(operands_from(es.push(e).drop_first(), tokens, from + 2, to + 2));
    } else {
        assert(es.push(e)[0] == es[0]);
        assert(es.push(e).drop_first() =~= es.drop_first().push(e));
        lemma_operands_from_snoc(es.drop_first(), tokens, from + 2, to, e);
    }
}

/// One element of a sequence: a function call, a literal, or an identifier,
/// tried in that order.
fn parse_sequence_token(parser: &AstParser, index: usize, tokens_used: &mut usize) -> (r: Result<
    Expression,
    AstParseError,
>)
    requires
        parser.wf(),
        *old(tokens_used) + remaining(parser.toks(), index as int) + 2 <= usize::MAX,
    ensures
        r is Ok ==> *old(tokens_used) < *final(tokens_used) && *final(tokens_used) - *old(
            tokens_used,
        ) <= remaining(parser.toks(), index as int),
        r is Ok ==> index < parser.toks().len() && ((parser.toks()[index as int].token_type
            is Literal) || parser.toks()[index as int].token_type == TokenType::Identifier),
        single_operand_at(parser.toks(), index as int) ==> (r matches Ok(e)
            && single_operand_matches(e, parser.toks()[index as int]) && *final(tokens_used)
            == *old(tokens_used) + 1),
        r matches Err(e) ==> *final(tokens_used) == *old(tokens_used) && e.error_type
            == AstErrorType::UnexpectedToken,
    decreases remaining(parser.toks(), index as int), 2int,
{
    if let Ok(result) = parse_function_call(parser, index, tokens_used) {
        return Ok(Expression::CallExpression(result));
    }

    if let Ok(result) = parse_literal(parser, index, tokens_used) {
        return Ok(Expression::Literal(result));
    }

    if let Ok(result) = parse_identifier(parser, index, tokens_used) {
        return Ok(Expression::Identifier(result));
    }

    Err(
        AstParseError {
            error_type: AstErrorType::UnexpectedToken,
            index: parser.get_current_index(),
        },
    )
}

/// Tests for a sequence end marker at `index`; a terminator found there is
/// counted as consumed.
fn is_end_marker(parser: &AstParser, index: usize, tokens_used: &mut usize) -> (r: bool)
    requires
        *old(tokens_used) < usize::MAX,
    ensures
        r == end_marker_at(parser.toks(), index as int),
        *final(tokens_used) == if end_marker_eats(parser.toks(), index as int) {
            (*old(tokens_used) + 1) as usize
        } else {
            *old(tokens_used)
        },
{
    match parser.token_at(index) {
        Some(token) => {
            if matches!(token.token_type, TokenType::Separator(Separator::CurlyBrace)) {
                return string_is_char(&token.value, '}');
            }

            if matches!(token.token_type, TokenType::Separator(Separator::Parenthesis)) {
                return string_is_char(&token.value, ')');
            }

            if matches!(token.token_type, TokenType::Separator(Separator::Terminator)) {
                *tokens_used = *tokens_used + 1;

                return true;
            }

            false
        },
        None => true,
    }
}

/// Consumes the comma between two sequence elements.
fn parse_separator(parser: &AstParser, index: usize, tokens_used: &mut usize) -> (r: Result<
    (),
    AstParseError,
>)
    requires
        *old(tokens_used) < usize::MAX,
    ensures
        if index < parser.toks().len() && parser.toks()[index as int].token_type
            == TokenType::Separator(Separator::Comma) {
            &&& r is Ok
            &&& *final(tokens_used) == *old(tokens_used) + 1
        } else {
            &&& r matches Err(e) && e.error_type == AstErrorType::UnexpectedToken && e.index
                == parser.index
            &&& *final(tokens_used) == *old(tokens_used)
        },
{
    match parser.token_at(index) {
        Some(token) => {
            if matches!(token.token_type, TokenType::Separator(Separator::Comma)) {
                *tokens_used = *tokens_used + 1;

                return Ok(());
            }

            Err(
                AstParseError {
                    error_type: AstErrorType::UnexpectedToken,
                    index: parser.get_current_index(),
                },
            )
        },
        None => Err(
            AstParseError {
                error_type: AstErrorType::UnexpectedToken,
                index: parser.get_current_index(),
            },
        ),
    }
}

/// `expression (',' expression)*`, ending at a terminator (counted as
/// consumed), a closing bracket or brace, or the end of the input.
pub fn parse_sequence(parser: &AstParser, index: usize, tokens_used: &mut usize) -> (r: Result<
    SequenceExpression,
    AstParseError,
>)
    requires
        parser.wf(),
        *old(tokens_used) + remaining(parser.toks(), index as int) + 2 <= usize::MAX,
    ensures
        r matches Ok(se) ==> {
            &&& se.expressions@.len() >= 1
            &&& *old(tokens_used) < *final(tokens_used)
            &&& *final(tokens_used) - *old(tokens_used) <= remaining(parser.toks(), index as int)
            &&& index < parser.toks().len()
            &&& ((parser.toks()[index as int].token_type is Literal)
                || parser.toks()[index as int].token_type == TokenType::Identifier)
        },
        operand_chain_at(parser.toks(), index as int) ==> (r matches Ok(se)
            && se.expressions@.len() == operand_chain_count(parser.toks(), index as int)
            && operands_from(
            se.expressions@,
            parser.toks(),
            index as int,
            index + 2 * se.expressions@.len(),
        ) && *final(tokens_used) == *old(tokens_used) + operand_chain_delta(
            parser.toks(),
            index as int,
        )),
        argument_list_at(parser.toks(), index as int) ==> (r matches Ok(se)
            && se.expressions@.len() == argument_list_count(parser.toks(), index as int)
            && operands_from(
            se.expressions@,
            parser.toks(),
            index as int,
            index + 2 * se.expressions@.len(),
        ) && *final(tokens_used) == *old(tokens_used) + 2 * se.expressions@.len() - 1),
        r matches Err(e) ==> *final(tokens_used) == *old(tokens_used) && e.error_type
            == AstErrorType::UnexpectedToken,
    decreases remaining(parser.toks(), index as int), 3int,
{
    let mut tokens: usize = 0;
    let mut expressions: Vec<Expression> = Vec::new();

    loop
        invariant_except_break
            operand_chain_at(parser.toks(), index as int) ==> {
                &&& tokens == 2 * expressions@.len()
                &&& operand_chain_at(parser.toks(), index + tokens)
                &&& operands_from(expressions@, parser.toks(), index as int, index + tokens)
                &&& expressions@.len() + operand_chain_count(parser.toks(), index + tokens)
                    == operand_chain_count(parser.toks(), index as int)
                &&& tokens + operand_chain_delta(parser.toks(), index + tokens)
                    == operand_chain_delta(parser.toks(), index as int)
            },
            argument_list_at(parser.toks(), index as int) ==> {
                &&& tokens == 2 * expressions@.len()
                &&& argument_list_at(parser.toks(), index + tokens)
                &&& operands_from(expressions@, parser.toks(), index as int, index + tokens)
                &&& expressions@.len() + argument_list_count(parser.toks(), index + tokens)
                    == argument_list_count(parser.toks(), index as int)
            },
        invariant
            parser.wf(),
            *old(tokens_used) + remaining(parser.toks(), index as int) + 2 <= usize::MAX,
            *tokens_used == *old(tokens_used),
            tokens as int <= remaining(parser.toks(), index as int),
            0 < tokens ==> index < parser.toks().len() && ((parser.toks()[index as int].token_type
                is Literal) || parser.toks()[index as int].token_type == TokenType::Identifier),
        ensures
            expressions@.len() >= 1,
            0 < tokens,
            tokens as int <= remaining(parser.toks(), index as int),
            *tokens_used == *old(tokens_used),
            index < parser.toks().len() && ((parser.toks()[index as int].token_type is Literal)
                || parser.toks()[index as int].token_type == TokenType::Identifier),
            operand_chain_at(parser.toks(), index as int) ==> (expressions@.len()
                == operand_chain_count(parser.toks(), index as int) && operands_from(
                expressions@,
                parser.toks(),
                index as int,
                index + 2 * expressions@.len(),
            ) && tokens == operand_chain_delta(parser.toks(), index as int)),
            argument_list_at(parser.toks(), index as int) ==> (expressions@.len()
                == argument_list_count(parser.toks(), index as int) && operands_from(
                expressions@,
                parser.toks(),
                index as int,
                index + 2 * expressions@.len(),
            ) && tokens == 2 * expressions@.len() - 1),
        decreases remaining(parser.toks(), index as int) - tokens,
    {
        let ghost at = index + tokens;
        let element = match parse_sequence_token(parser, index + tokens, &mut tokens) {
            Ok(e) => e,
            Err(e) => {
                return Err(e);
            },
        };
        proof {
            if operand_chain_at(parser.toks(), index as int) || argument_list_at(
                parser.toks(),
                index as int,
            ) {
                lemma_operands_from_snoc(
                    expressions@,
                    parser.toks(),
                    index as int,
                    at as int,
                    element,
                );
            }
        }
        expressions.push(element);

        if is_end_marker(parser, index + tokens, &mut tokens) {
            break ;
        }

        match parse_separator(parser, index + tokens, &mut tokens) {
            Ok(_) => (),
            Err(e) => {
                return Err(e);
            },
        }
    }

    *tokens_used = *tokens_used + tokens;

    let expression = SequenceExpression { expressions };

    Ok(expression)
}

} // verus!
