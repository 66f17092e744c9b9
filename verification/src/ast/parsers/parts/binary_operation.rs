use vstd::prelude::*;

use crate::ast::nodes::expression_statement::{BinaryExpression, Expression};
use crate::ast::parser::AstParser;
use crate::ast::parsers::parts::remaining;
use crate::ast::parsers::parts::sequence::{
    argument_list_at, argument_list_count, operands_from,
};
use crate::ast::parsers::util::{closed_param_tok, open_param_tok};
use crate::ast::{AstErrorType, AstParseError};
use crate::tokenizer::{Separator, Token, TokenType};

use super::function_call::parse_function_call;
use super::identifier::parse_identifier;
use super::literal::parse_literal;

verus! {

/// The token closing an operand: a literal, an identifier, or a call's
/// closing bracket; never a terminator or a comma.
pub open spec fn operand_final_tok(tokens: Seq<Token>, i: int) -> bool {
    &&& 0 <= i < tokens.len()
    &&& tokens[i].token_type != TokenType::Separator(Separator::Terminator)
    &&& tokens[i].token_type != TokenType::Separator(Separator::Comma)
}

/// A token that parses as a one-token operand: a literal, or an identifier
/// not followed by an opening bracket (which would make it a call).
pub open spec fn single_operand_at(tokens: Seq<Token>, i: int) -> bool {
    &&& 0 <= i < tokens.len()
    &&& ((tokens[i].token_type is Literal) || (tokens[i].token_type == TokenType::Identifier && !(
    i + 1 < tokens.len() && open_param_tok(tokens[i + 1]))))
}

/// The expression a one-token operand parses to: the literal or identifier
/// node built from exactly that token.
pub open spec fn single_operand_matches(e: Expression, t: Token) -> bool {
    match e {
        Expression::Literal(le) => (t.token_type is Literal) && le.value.value@ == t.value@
            && le.value.raw@ == t.raw_value@ && le.value.range == t.range,
        Expression::Identifier(ie) => t.token_type == TokenType::Identifier && ie.identifier.name@
            == t.value@ && ie.identifier.range == t.range,
        _ => false,
    }
}

/// `operand operator operand` stands at `i`, with no further operator.
pub open spec fn binary_triple_at(tokens: Seq<Token>, i: int) -> bool {
    &&& single_operand_at(tokens, i)
    &&& i + 1 < tokens.len() && tokens[i + 1].token_type == TokenType::Operator
    &&& single_operand_at(tokens, i + 2)
    &&& !(i + 3 < tokens.len() && tokens[i + 3].token_type == TokenType::Operator)
}

/// `operand operator operand operator operand` stands at `i`, with no
/// further operator.
pub open spec fn binary_chain_at(tokens: Seq<Token>, i: int) -> bool {
    &&& single_operand_at(tokens, i)
    &&& i + 1 < tokens.len() && tokens[i + 1].token_type == TokenType::Operator
    &&& single_operand_at(tokens, i + 2)
    &&& i + 3 < tokens.len() && tokens[i + 3].token_type == TokenType::Operator
    &&& single_operand_at(tokens, i + 4)
    &&& !(i + 5 < tokens.len() && tokens[i + 5].token_type == TokenType::Operator)
}

/// `b` is exactly the operands at `i` and `i + 2` joined by the operator
/// at `i + 1`.
pub open spec fn folds_operands(b: BinaryExpression, tokens: Seq<Token>, i: int) -> bool {
    &&& b.operator@ == tokens[i + 1].raw_value@
    &&& single_operand_matches(*b.left, tokens[i])
    &&& single_operand_matches(*b.right, tokens[i + 2])
}


/// `operand (operator operand)*` with `n` operators stands at `i`, each
/// operand a single literal or identifier token.
pub open spec fn operator_chain_at(tokens: Seq<Token>, i: int, n: int) -> bool
    decreases n,
{
    if n < 1 {
        false
    } else if n == 1 {
        &&& single_operand_at(tokens, i)
        &&& i + 1 < tokens.len() && tokens[i + 1].token_type == TokenType::Operator
        &&& single_operand_at(tokens, i + 2)
    } else {
        &&& operator_chain_at(tokens, i, n - 1)
        &&& i + 2 * n - 1 < tokens.len() && tokens[i + 2 * n - 1].token_type == TokenType::Operator
        &&& single_operand_at(tokens, i + 2 * n)
    }
}

/// Any shorter prefix of an operator chain is itself an operator chain.
pub proof fn lemma_operator_chain_prefix(tokens: Seq<Token>, i: int, n: int, m: int)
    requires
        operator_chain_at(tokens, i, n),
        1 <= m <= n,
    ensures
        operator_chain_at(tokens, i, m),
    decreases n,
{
    if m < n {
        lemma_operator_chain_prefix(tokens, i, n - 1, m);
    }
}

/// A flat call stands at `i`: an identifier, its brackets, and an empty or
/// flat argument list.
pub open spec fn flat_call_at(tokens: Seq<Token>, i: int) -> bool {
    &&& 0 <= i && i + 1 < tokens.len()
    &&& tokens[i].token_type == TokenType::Identifier
    &&& open_param_tok(tokens[i + 1])
    &&& ((i + 2 < tokens.len() && closed_param_tok(tokens[i + 2])) || argument_list_at(
        tokens,
        i + 2,
    ))
}

/// The position just past such a call's closing bracket.
pub open spec fn flat_call_end(tokens: Seq<Token>, i: int) -> int {
    if i + 2 < tokens.len() && closed_param_tok(tokens[i + 2]) {
        i + 3
    } else {
        i + 2 + 2 * argument_list_count(tokens, i + 2)
    }
}

/// An operator chain whose last operator dangles: one more operator follows
/// the chain but no operand can start after it. Parsing this is a committed
/// structural failure, not a benign mismatch.
pub open spec fn dangling_operator_at(tokens: Seq<Token>, i: int, n: int) -> bool {
    &&& operator_chain_at(tokens, i, n)
    &&& i + 2 * n + 1 < tokens.len() && tokens[i + 2 * n + 1].token_type == TokenType::Operator
    &&& !(i + 2 * n + 2 < tokens.len() && ((tokens[i + 2 * n + 2].token_type is Literal)
        || tokens[i + 2 * n + 2].token_type == TokenType::Identifier))
}

/// `b` is the strictly left-associated fold of the chain's first `n`
/// operators: the `n`-th operator joins the fold of the first `n - 1`
/// operators with the operand standing after it.
pub open spec fn left_folded(b: BinaryExpression, tokens: Seq<Token>, i: int, n: int) -> bool
    decreases n,
{
    if n <= 1 {
        folds_operands(b, tokens, i)
    } else {
        &&& b.operator@ == tokens[i + 2 * n - 1].raw_value@
        &&& (*b.left matches Expression::BinaryExpression(bl) && left_folded(bl, tokens, i, n - 1))
        &&& single_operand_matches(*b.right, tokens[i + 2 * n])
    }
}

/// One operand of a binary operation: a function call, a literal, or an
/// identifier, tried in that order.
fn parse_binary_operation_expression(parser: &AstParser, index: usize, tokens_used: &mut usize) -> (r:
    Result<Expression, AstParseError>)
    requires
        parser.wf(),
        *old(tokens_used) + remaining(parser.toks(), index as int) + 2 <= usize::MAX,
    ensures
        r is Ok ==> *old(tokens_used) < *final(tokens_used) && *final(tokens_used) - *old(
            tokens_used,
        ) <= remaining(parser.toks(), index as int),
        r is Ok ==> operand_final_tok(
            parser.toks(),
            index + (*final(tokens_used) - *old(tokens_used)) - 1,
        ),
        r matches Err(e) ==> *final(tokens_used) == *old(tokens_used) && e.error_type
            == AstErrorType::UnexpectedToken,
        single_operand_at(parser.toks(), index as int) ==> (r matches Ok(exp)
            && single_operand_matches(exp, parser.toks()[index as int]) && *final(tokens_used)
            == *old(tokens_used) + 1),
        !(index < parser.toks().len() && ((parser.toks()[index as int].token_type is Literal)
            || parser.toks()[index as int].token_type == TokenType::Identifier)) ==> (r matches
            Err(e) && e.error_type == AstErrorType::UnexpectedToken),
        flat_call_at(parser.toks(), index as int) ==> (r matches Ok(exp) && (exp matches
            Expression::CallExpression(ce) && ce.callee.name@ == parser.toks()[index as int].value@
            && (ce.arguments@.len() == 0 && parser.toks()[index as int + 2].token_type
            == TokenType::Separator(Separator::Parenthesis) || operands_from(
            ce.arguments@,
            parser.toks(),
            index as int + 2,
            index as int + 2 + 2 * ce.arguments@.len(),
        ) && ce.arguments@.len() == argument_list_count(parser.toks(), index as int + 2)))
            && *final(tokens_used) == *old(tokens_used) + flat_call_end(
            parser.toks(),
            index as int,
        ) - index),
    decreases remaining(parser.toks(), index as int), 2int,
{
    if let Ok(result) = parse_function_call(parser, index, tokens_used) {
        return Ok(Expression::CallExpression(result));
    }

    if let Ok(result) = parse_literal(parser, index, tokens_used) {
        return Ok(Expression::Literal(result));
    }

    if let Ok(result) = parse_identifier(parser, index, tokens_used) {
        return Ok(Expression::Identifier(result));
    }

    Err(
        AstParseError {
            error_type: AstErrorType::UnexpectedToken,
            index: parser.get_current_index(),
        },
    )
}

/// Reads the operator token at `index`, returning its raw text. A missing
/// or non-operator token is the speculative "no operator here" signal.
fn parse_operator(parser: &AstParser, index: usize, tokens_used: &mut usize) -> (r: Result<
    String,
    AstParseError,
>)
    requires
        *old(tokens_used) < usize::MAX,
    ensures
        if index < parser.toks().len() && parser.toks()[index as int].token_type
            == TokenType::Operator {
            &&& r matches Ok(op) && op@ == parser.toks()[index as int].raw_value@
            &&& *final(tokens_used) == *old(tokens_used) + 1
        } else {
            &&& r matches Err(e) && e.error_type == AstErrorType::UnexpectedTokenStart && e.index
                == parser.index
            &&& *final(tokens_used) == *old(tokens_used)
        },
{
    match parser.token_at(index) {
        Some(value) => {
            if matches!(value.token_type, TokenType::Operator) {
                *tokens_used = *tokens_used + 1;

                return Ok(value.raw_value.clone());
            }

            Err(
                AstParseError {
                    error_type: AstErrorType::UnexpectedTokenStart,
                    index: parser.get_current_index(),
                },
            )
        },
        None => Err(
            AstParseError {
                error_type: AstErrorType::UnexpectedTokenStart,
                index: parser.get_current_index(),
            },
        ),
    }
}

/// `operand operator operand (operator operand)*`, folded strictly left to
/// right in the order the operators appear: each further operator takes the
/// expression built so far as its new left operand. There is no precedence
/// table. A missing first operator is the speculative "no binary expression
/// here" signal; a missing operand after a committed operator is a real
/// error.
pub fn parse_binary_operation(parser: &AstParser, index: usize, tokens_used: &mut usize) -> (r:
    Result<BinaryExpression, AstParseError>)
    requires
        parser.wf(),
        *old(tokens_used) + remaining(parser.toks(), index as int) + 2 <= usize::MAX,
    ensures
        r is Ok ==> {
            &&& *final(tokens_used) >= *old(tokens_used) + 3
            &&& *final(tokens_used) - *old(tokens_used) <= remaining(parser.toks(), index as int)
            &&& operand_final_tok(
                parser.toks(),
                index + (*final(tokens_used) - *old(tokens_used)) - 1,
            )
        },
        r matches Err(e) ==> *final(tokens_used) == *old(tokens_used) && (e.error_type
            == AstErrorType::UnexpectedTokenStart || e.error_type == AstErrorType::UnexpectedToken),
        index < parser.toks().len() && (parser.toks()[index as int].token_type is Literal) && !(
        index + 1 < parser.toks().len() && parser.toks()[index + 1].token_type
            == TokenType::Operator) ==> (r matches Err(e) && e.error_type
            == AstErrorType::UnexpectedTokenStart),
        index < parser.toks().len() && parser.toks()[index as int].token_type
            == TokenType::Identifier && !(index + 1 < parser.toks().len() && open_param_tok(
            parser.toks()[index + 1],
        )) && !(index + 1 < parser.toks().len() && parser.toks()[index + 1].token_type
            == TokenType::Operator) ==> (r matches Err(e) && e.error_type
            == AstErrorType::UnexpectedTokenStart),
        binary_triple_at(parser.toks(), index as int) ==> (r matches Ok(b) && folds_operands(
            b,
            parser.toks(),
            index as int,
        ) && *final(tokens_used) == *old(tokens_used) + 3),
        binary_chain_at(parser.toks(), index as int) ==> (r matches Ok(b) && b.operator@
            == parser.toks()[index + 3].raw_value@ && (*b.left matches
            Expression::BinaryExpression(bl) && folds_operands(bl, parser.toks(), index as int))
            && single_operand_matches(*b.right, parser.toks()[index + 4]) && *final(tokens_used)
            == *old(tokens_used) + 5),
        forall|n: int|
            #[trigger] operator_chain_at(parser.toks(), index as int, n) && !(index + 2 * n + 1
                < parser.toks().len() && parser.toks()[index + 2 * n + 1].token_type
                == TokenType::Operator) ==> (r matches Ok(b) && left_folded(
                b,
                parser.toks(),
                index as int,
                n,
            ) && *final(tokens_used) == *old(tokens_used) + 2 * n + 1),
        forall|n: int|
            #[trigger] dangling_operator_at(parser.toks(), index as int, n) ==> (r matches Err(e)
                && e.error_type == AstErrorType::UnexpectedToken),
        flat_call_at(parser.toks(), index as int) && !(flat_call_end(parser.toks(), index as int)
            < parser.toks().len() && parser.toks()[flat_call_end(
            parser.toks(),
            index as int,
        )].token_type == TokenType::Operator) ==> (r matches Err(e) && e.error_type
            == AstErrorType::UnexpectedTokenStart),
    decreases remaining(parser.toks(), index as int), 4int,
{
    let ghost toks = parser.toks();
    let mut tokens: usize = 0;
    let mut binary_expression;

    proof {
        assert forall|n: int| #[trigger] operator_chain_at(toks, index as int, n) implies (
        operator_chain_at(toks, index as int, 1) && (n >= 2 ==> operator_chain_at(
            toks,
            index as int,
            2,
        ))) by {
            lemma_operator_chain_prefix(toks, index as int, n, 1);
            if n >= 2 {
                lemma_operator_chain_prefix(toks, index as int, n, 2);
            }
        }
    }

    let left = match parse_binary_operation_expression(parser, index, &mut tokens) {
        Ok(e) => Box::new(e),
        Err(e) => {
            return Err(e);
        },
    };
    let operator = match parse_operator(parser, index + tokens, &mut tokens) {
        Ok(op) => op,
        Err(e) => {
            return Err(e);
        },
    };
    let right = match parse_binary_operation_expression(parser, index + tokens, &mut tokens) {
        Ok(e) => Box::new(e),
        Err(e) => {
            return Err(e);
        },
    };

    binary_expression = BinaryExpression { operator, left, right };

    let mut next_operator = parse_operator(parser, index + tokens, &mut tokens);

    while next_operator.is_ok()
        invariant
            parser.wf(),
            toks == parser.toks(),
            *old(tokens_used) + remaining(toks, index as int) + 2 <= usize::MAX,
            *tokens_used == *old(tokens_used),
            3 <= tokens,
            tokens as int <= remaining(toks, index as int),
            next_operator matches Ok(op) ==> index + tokens <= toks.len(),
            next_operator is Ok ==> index + tokens - 1 < toks.len() && toks[index + tokens
                - 1].token_type == TokenType::Operator,
            next_operator is Err ==> operand_final_tok(toks, index + tokens - 1),
            !(index < toks.len() && (toks[index as int].token_type is Literal) && !(index + 1
                < toks.len() && toks[index + 1].token_type == TokenType::Operator)),
            !(index < toks.len() && toks[index as int].token_type == TokenType::Identifier && !(
            index + 1 < toks.len() && open_param_tok(toks[index + 1])) && !(index + 1 < toks.len()
                && toks[index + 1].token_type == TokenType::Operator)),
            !(flat_call_at(toks, index as int) && !(flat_call_end(toks, index as int) < toks.len()
                && toks[flat_call_end(toks, index as int)].token_type == TokenType::Operator)),
            next_operator matches Ok(op) ==> op@ == toks[index + tokens - 1].raw_value@,
            binary_triple_at(toks, index as int) ==> tokens == 3 && next_operator is Err
                && folds_operands(binary_expression, toks, index as int),
            binary_chain_at(toks, index as int) ==> ((tokens == 4 && next_operator is Ok
                && folds_operands(binary_expression, toks, index as int)) || (tokens == 5
                && next_operator is Err && binary_expression.operator@ == toks[index
                + 3].raw_value@ && (*binary_expression.left matches Expression::BinaryExpression(
                bl,
            ) && folds_operands(bl, toks, index as int)) && single_operand_matches(
                *binary_expression.right,
                toks[index + 4],
            ))),
            forall|n: int|
                #[trigger] operator_chain_at(toks, index as int, n) && !(index + 2 * n + 1
                    < toks.len() && toks[index + 2 * n + 1].token_type == TokenType::Operator)
                    ==> ((next_operator is Ok && tokens == 2 * ((tokens - 2) / 2) + 2 && 1 <= (
                tokens - 2) / 2 < n && left_folded(binary_expression, toks, index as int, (tokens
                    - 2) / 2)) || (next_operator is Err && tokens == 2 * n + 1 && left_folded(
                    binary_expression,
                    toks,
                    index as int,
                    n,
                ))),
            forall|n: int|
                #[trigger] dangling_operator_at(toks, index as int, n) ==> (next_operator is Ok
                    && tokens == 2 * ((tokens - 2) / 2) + 2 && 1 <= (tokens - 2) / 2 <= n),
        decreases remaining(toks, index as int) - tokens,
    {
        proof {
            let m = (tokens - 2) / 2;
            assert forall|n: int| #[trigger] operator_chain_at(toks, index as int, n) implies ((m
                + 1 <= n ==> operator_chain_at(toks, index as int, m + 1)) && (m + 2 <= n
                ==> operator_chain_at(toks, index as int, m + 2))) by {
                if m + 1 <= n {
                    lemma_operator_chain_prefix(toks, index as int, n, m + 1);
                }
                if m + 2 <= n {
                    lemma_operator_chain_prefix(toks, index as int, n, m + 2);
                }
            }
        }
        let operator = match next_operator {
            Ok(op) => op,
            Err(_) => {
                return Err(
                    AstParseError {
                        error_type: AstErrorType::UnexpectedToken,
                        index: parser.get_current_index(),
                    },
                );
            },
        };

        let left = Box::new(Expression::BinaryExpression(binary_expression));
        let right = match parse_binary_operation_expression(parser, index + tokens, &mut tokens) {
            Ok(e) => Box::new(e),
            Err(e) => {
                return Err(e);
            },
        };

        binary_expression = BinaryExpression { operator, left, right };

        next_operator = parse_operator(parser, index + tokens, &mut tokens);
    }

    *tokens_used = *tokens_used + tokens;

    Ok(binary_expression)
}

} // verus!
