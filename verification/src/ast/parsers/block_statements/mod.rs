use vstd::prelude::*;

use crate::ast::nodes::block_statement::BlockStatement;
use crate::ast::parser::{block_single_statement_at, lone_statement_run, AstParser};
use crate::ast::parsers::expression_statements::statement_step;
use crate::ast::parsers::util::string_is_char;
use crate::ast::{AstErrorType, AstParseError};
use crate::tokenizer::{Separator, Token, TokenType};

verus! {

/// The token is an opening block brace.
pub open spec fn open_brace_tok(t: Token) -> bool {
    t.token_type == TokenType::Separator(Separator::CurlyBrace) && t.value@ == seq!['{']
}

/// The token is a closing block brace.
pub open spec fn closed_brace_tok(t: Token) -> bool {
    t.token_type == TokenType::Separator(Separator::CurlyBrace) && t.value@ == seq!['}']
}

pub fn is_open_block_statement(parser: &AstParser) -> (r: bool)
    ensures
        r == (parser.index < parser.toks().len() && open_brace_tok(
            parser.toks()[parser.index as int],
        )),
{
    match parser.token() {
        Some(token) => {
            let is_type = matches!(token.token_type, TokenType::Separator(Separator::CurlyBrace));
            let is_value = string_is_char(&token.value, '{');

            is_type && is_value
        },
        None => false,
    }
}

pub fn is_closed_block_statement(parser: &AstParser) -> (r: bool)
    ensures
        r == (parser.index < parser.toks().len() && closed_brace_tok(
            parser.toks()[parser.index as int],
        )),
{
    match parser.token() {
        Some(token) => {
            let is_type = matches!(token.token_type, TokenType::Separator(Separator::CurlyBrace));
            let is_value = string_is_char(&token.value, '}');

            is_type && is_value
        },
        None => false,
    }
}

/// `'{' statement* '}'`: consumes the braces and everything between them.
/// A missing opening brace is an `UnexpectedToken`; running out of input
/// before the matching closing brace is an `UnexpectedEndOfInput`.
pub fn parse_block_statement(parser: &mut AstParser) -> (r: Result<BlockStatement, AstParseError>)
    requires
        old(parser).wf(),
    ensures
        final(parser).wf(),
        final(parser).toks() == old(parser).toks(),
        old(parser).index + 1 < old(parser).toks().len() && open_brace_tok(
            old(parser).toks()[old(parser).index as int],
        ) && closed_brace_tok(old(parser).toks()[old(parser).index + 1]) ==> (r matches Ok(bs)
            && bs.body@.len() == 0 && final(parser).index == old(parser).index + 2 && bs.range.0
            == old(parser).toks()[old(parser).index as int].range.0 && bs.range.1 == old(
            parser,
        ).toks()[old(parser).index + 1].range.1),
        old(parser).index < old(parser).toks().len() && open_brace_tok(
            old(parser).toks()[old(parser).index as int],
        ) && block_single_statement_at(old(parser).toks(), old(parser).index + 1) ==> (r matches
            Ok(bs) && bs.body@.len() == 1 && final(parser).index == old(parser).index + 2
            + statement_step(old(parser).toks(), old(parser).index + 1)),
        old(parser).index < old(parser).toks().len() && open_brace_tok(
            old(parser).toks()[old(parser).index as int],
        ) && lone_statement_run(old(parser).toks(), old(parser).index + 1) ==> (r matches Err(e)
            && e.error_type == AstErrorType::UnexpectedEndOfInput && e.index == old(
            parser,
        ).toks().len()),
        old(parser).index + 3 < old(parser).toks().len() && open_brace_tok(
            old(parser).toks()[old(parser).index as int],
        ) && open_brace_tok(old(parser).toks()[old(parser).index + 1]) && closed_brace_tok(
            old(parser).toks()[old(parser).index + 2],
        ) && closed_brace_tok(old(parser).toks()[old(parser).index + 3]) ==> (r matches Ok(bs)
            && bs.body@.len() == 1 && bs.body@[0] is BlockStatement && final(parser).index == old(
            parser,
        ).index + 4),
        if old(parser).index < old(parser).toks().len() && open_brace_tok(
            old(parser).toks()[old(parser).index as int],
        ) {
            &&& r matches Ok(bs) ==> {
                &&& old(parser).index + 2 <= final(parser).index <= old(parser).toks().len()
                &&& bs.range.0 == old(parser).toks()[old(parser).index as int].range.0
                &&& closed_brace_tok(old(parser).toks()[final(parser).index - 1])
                &&& bs.range.1 == old(parser).toks()[final(parser).index - 1].range.1
            }
            &&& r matches Err(e) ==> e.error_type != AstErrorType::UnexpectedTokenStart
        } else {
            &&& r matches Err(e) && e.error_type == AstErrorType::UnexpectedToken && e.index
                == old(parser).index
            &&& *final(parser) == *old(parser)
        },
    decreases old(parser).toks().len() - old(parser).index, 0int,
{
    if !is_open_block_statement(&*parser) {
        return Err(
            AstParseError {
                error_type: AstErrorType::UnexpectedToken,
                index: parser.get_current_index(),
            },
        );
    }

    let start = parser.token().unwrap().range.0;

    // Skip the current opening block
    parser.next();

    // Fetch all statements within the block
    let body = match parser.parse_block() {
        Ok(b) => b,
        Err(e) => {
            return Err(e);
        },
    };

    let end = parser.peek_back().unwrap().range.1;

    Ok(BlockStatement { body, range: (start, end) })
}

} // verus!
