use vstd::prelude::*;

use crate::ast::nodes::expression_statement::{Expression, ExpressionStatement};
use crate::ast::parser::{spec_asi, AstParser};
use crate::ast::parsers::parts::binary_operation;
use crate::ast::parsers::parts::binary_operation::{flat_call_at, flat_call_end};
use crate::ast::parsers::parts::sequence;
use crate::ast::parsers::util::{is_semicolon_terminator, param_separator_tok, terminator_tok};
use crate::ast::{AstErrorType, AstParseError, SearchResult};
use crate::tokenizer::{Separator, Token, TokenType};

pub mod binary_expression;
pub mod call_expression;
pub mod identifier_expression;
pub mod literal_expression;
pub mod sequence_expression;

verus! {

use self::binary_expression::is_binary_expression_statement;
use self::call_expression::is_call_expression_statement;
use self::identifier_expression::is_identifier_expression_statement;
use self::literal_expression::is_literal_expression_statement;
use self::sequence_expression::is_sequence_expression_statement;

/// What a probe returns: a match with its token span, a benign
/// "does not apply here", or a fatal error.
pub type FindResult<T> = Result<Option<SearchResult<T>>, AstParseError>;

/// An expression whose last token is at `m - 1` has ended: the marker at `m`
/// is a terminator or a comma, a semicolon can be inserted before it, or the
/// input is exhausted.
pub open spec fn expression_ended_at(tokens: Seq<Token>, m: int) -> bool {
    if m >= tokens.len() {
        true
    } else {
        ||| terminator_tok(tokens[m])
        ||| param_separator_tok(tokens[m])
        ||| (m > 0 && spec_asi(tokens, m - 1))
    }
}

/// The last token inside a committed statement span ending at `ast_end`:
/// the token just before the end, not counting one trailing terminator or
/// comma end marker.
pub open spec fn span_last_tok(tokens: Seq<Token>, ast_end: int) -> int {
    if 0 <= ast_end - 1 < tokens.len() && (terminator_tok(tokens[ast_end - 1])
        || param_separator_tok(tokens[ast_end - 1])) {
        ast_end - 2
    } else {
        ast_end - 1
    }
}

/// A single literal token stands at `i` as a whole statement: the statement
/// end follows and no operator continues it into a binary expression.
pub open spec fn lone_literal_statement_at(tokens: Seq<Token>, i: int) -> bool {
    &&& 0 <= i < tokens.len()
    &&& literal_tok(tokens[i])
    &&& expression_ended_at(tokens, i + 1)
    &&& !(i + 1 < tokens.len() && tokens[i + 1].token_type == TokenType::Operator)
}

/// A single identifier token stands at `i` as a whole statement: a valid
/// end marker follows and neither an operator nor an opening bracket
/// continues it into a binary or call expression.
pub open spec fn lone_identifier_statement_at(tokens: Seq<Token>, i: int) -> bool {
    &&& 0 <= i < tokens.len()
    &&& identifier_tok(tokens[i])
    &&& identifier_expression::identifier_ended_at(tokens, i + 1)
    &&& !(i + 1 < tokens.len() && tokens[i + 1].token_type == TokenType::Operator)
    &&& !(i + 1 < tokens.len() && crate::ast::parsers::util::open_param_tok(tokens[i + 1]))
}

/// How far a committed single-token statement moves the cursor: one token,
/// and one more for a terminator standing right after it.
pub open spec fn statement_step(tokens: Seq<Token>, i: int) -> int {
    if i + 1 < tokens.len() && terminator_tok(tokens[i + 1]) {
        2
    } else {
        1
    }
}

/// A flat call stands at `i` as a whole statement: a statement end follows
/// its closing bracket and no operator continues it into a binary
/// expression.
pub open spec fn lone_call_statement_at(tokens: Seq<Token>, i: int) -> bool {
    &&& flat_call_at(tokens, i)
    &&& expression_ended_at(tokens, flat_call_end(tokens, i))
    &&& !(flat_call_end(tokens, i) < tokens.len() && tokens[flat_call_end(
        tokens,
        i,
    )].token_type == TokenType::Operator)
}

/// The token at `i` is a literal of some kind.
pub open spec fn literal_tok(t: Token) -> bool {
    t.token_type is Literal
}

/// The token at `i` is an identifier.
pub open spec fn identifier_tok(t: Token) -> bool {
    t.token_type == TokenType::Identifier
}

/// The statement at the cursor matches one of the five expression forms.
pub fn is_expression_statement(parser: &AstParser) -> (r: bool)
    requires
        parser.wf(),
    ensures
        r ==> parser.index < parser.toks().len(),
        parser.index < parser.toks().len() && literal_tok(parser.toks()[parser.index as int])
            && expression_ended_at(parser.toks(), parser.index + 1) ==> r,
        parser.index < parser.toks().len() && identifier_tok(parser.toks()[parser.index as int])
            && identifier_expression::identifier_ended_at(parser.toks(), parser.index + 1) ==> r,
{
    is_binary_expression_statement(parser) || is_sequence_expression_statement(parser)
        || is_literal_expression_statement(parser) || is_identifier_expression_statement(parser)
        || is_call_expression_statement(parser)
}

/// Commits a probe's match: advances the cursor by exactly the matched token
/// span and hands back the constructed statement.
pub fn consume_result(parser: &mut AstParser, result: SearchResult<ExpressionStatement>) -> (r:
    ExpressionStatement)
    requires
        old(parser).wf(),
        result.ast_range.0 <= result.ast_range.1,
        old(parser).index + (result.ast_range.1 - result.ast_range.0) <= old(parser).toks().len()
            + 1,
    ensures
        final(parser).wf(),
        *final(parser) == old(parser).advanced(
            (old(parser).index + (result.ast_range.1 - result.ast_range.0)) as usize,
        ),
        r == result.value,
{
    let delta = result.ast_range.1 - result.ast_range.0;

    parser.consume_range(delta);

    result.value
}

/// Ordered choice over the expression forms, first match wins: binary
/// operation, call, literal, identifier, sequence. On a match the cursor is
/// advanced by exactly the matched span, and a terminator standing right
/// after it is skipped. The speculative "does not start here" signal never
/// escapes: a failure here is a real `UnexpectedToken`.
pub fn parse_expression_statement(parser: &mut AstParser) -> (r: Result<
    ExpressionStatement,
    AstParseError,
>)
    requires
        old(parser).wf(),
    ensures
        final(parser).wf(),
        final(parser).toks() == old(parser).toks(),
        r is Ok ==> old(parser).index < final(parser).index <= final(parser).toks().len(),
        r matches Err(e) ==> *final(parser) == *old(parser) && e.error_type
            == AstErrorType::UnexpectedToken,
        lone_literal_statement_at(old(parser).toks(), old(parser).index as int) ==> (r matches Ok(
            es,
        ) && (es.expression matches Expression::Literal(le) && le.value.value@ == old(
            parser,
        ).toks()[old(parser).index as int].value@ && le.value.raw@ == old(parser).toks()[old(
            parser,
        ).index as int].raw_value@) && es.range == old(parser).toks()[old(
            parser,
        ).index as int].range && final(parser).index == old(parser).index
            + statement_step(old(parser).toks(), old(parser).index as int)),
        lone_identifier_statement_at(old(parser).toks(), old(parser).index as int) ==> (r matches
            Ok(es) && (es.expression matches Expression::Identifier(ie) && ie.identifier.name@
            == old(parser).toks()[old(parser).index as int].value@) && es.range == old(
            parser,
        ).toks()[old(parser).index as int].range && final(parser).index == old(parser).index
            + statement_step(old(parser).toks(), old(parser).index as int)),
        lone_call_statement_at(old(parser).toks(), old(parser).index as int) ==> (r matches Ok(es)
            && (es.expression matches Expression::CallExpression(ce) && ce.callee.name@ == old(
            parser,
        ).toks()[old(parser).index as int].value@ && (ce.arguments@.len() == 0 || (ce.arguments@.len()
            == sequence::argument_list_count(old(parser).toks(), old(parser).index + 2)
            && sequence::operands_from(
            ce.arguments@,
            old(parser).toks(),
            old(parser).index + 2,
            old(parser).index + 2 + 2 * ce.arguments@.len(),
        ))))),
        forall|n: int|
            #[trigger] binary_operation::operator_chain_at(
                old(parser).toks(),
                old(parser).index as int,
                n,
            ) && !(old(parser).index + 2 * n + 1 < old(parser).toks().len() && old(
                parser,
            ).toks()[old(parser).index + 2 * n + 1].token_type == TokenType::Operator)
                && expression_ended_at(old(parser).toks(), old(parser).index + 2 * n + 1) ==> (
            r matches Ok(es) && (es.expression matches Expression::BinaryExpression(b)
                && binary_operation::left_folded(
                b,
                old(parser).toks(),
                old(parser).index as int,
                n,
            ))),
{
    match binary_expression::find(parser) {
        Ok(Some(result)) => {
            let statement = consume_result(parser, result);
            if is_semicolon_terminator(parser) {
                parser.next();
            }
            return Ok(statement);
        },
        Ok(None) => (),
        Err(e) => {
            return Err(e);
        },
    }

    match call_expression::find(parser) {
        Ok(Some(result)) => {
            let statement = consume_result(parser, result);
            if is_semicolon_terminator(parser) {
                parser.next();
            }
            return Ok(statement);
        },
        Ok(None) => (),
        Err(e) => {
            return Err(e);
        },
    }

    match literal_expression::find(parser) {
        Ok(Some(result)) => {
            let statement = consume_result(parser, result);
            if is_semicolon_terminator(parser) {
                parser.next();
            }
            return Ok(statement);
        },
        Ok(None) => (),
        Err(e) => {
            return Err(e);
        },
    }

    match identifier_expression::find(parser) {
        Ok(Some(result)) => {
            let statement = consume_result(parser, result);
            if is_semicolon_terminator(parser) {
                parser.next();
            }
            return Ok(statement);
        },
        Ok(None) => (),
        Err(e) => {
            return Err(e);
        },
    }

    match sequence_expression::find(parser) {
        Ok(Some(result)) => {
            let statement = consume_result(parser, result);
            if is_semicolon_terminator(parser) {
                parser.next();
            }
            return Ok(statement);
        },
        Ok(None) => (),
        Err(e) => {
            return Err(e);
        },
    }

    Err(
        AstParseError {
            error_type: AstErrorType::UnexpectedToken,
            index: parser.get_current_index(),
        },
    )
}

/// Tests whether the expression whose last token is at `start_index` has
/// ended: the next token is a terminator or a comma, a semicolon can be
/// inserted after `start_index`, or the input is exhausted there.
pub fn expression_has_ended(parser: &AstParser, start_index: usize) -> (r: bool)
    requires
        parser.wf(),
        start_index < usize::MAX,
    ensures
        r == expression_ended_at(parser.toks(), start_index + 1),
{
    let index = start_index + 1;
    let end_marker = parser.token_at(index);

    match end_marker {
        Some(marker) => {
            if matches!(marker.token_type, TokenType::Separator(Separator::Terminator)) {
                return true;
            }

            if matches!(marker.token_type, TokenType::Separator(Separator::Comma)) {
                return true;
            }

            if index > 0 && parser.can_insert_automatic_semicolon(index - 1) {
                return true;
            }

            return false;
        },
        None => {
            return true;
        },
    }
}

} // verus!
