use vstd::prelude::*;

use super::parser::AstParser;
use super::{AstErrorType, AstParseError};

pub mod block_statements;
pub mod expression_statements;
pub mod function_declaration;
pub mod parts;
pub mod util;

verus! {

fn get_start_position(parser: &AstParser) -> (r: Result<usize, AstParseError>)
    ensures
        match r {
            Ok(p) => parser.index < parser.toks().len() && p == parser.toks()[parser.index as int].range.0,
            Err(e) => parser.index >= parser.toks().len() && e.error_type
                == AstErrorType::UnexpectedToken && e.index == parser.index,
        },
{
    match parser.token() {
        Some(token) => Ok(token.range.0),
        None => Err(
            AstParseError {
                error_type: AstErrorType::UnexpectedToken,
                index: parser.get_current_index(),
            },
        ),
    }
}

fn get_end_position(parser: &AstParser) -> (r: Result<usize, AstParseError>)
    ensures
        match r {
            Ok(p) => parser.index < parser.toks().len() && p == parser.toks()[parser.index as int].range.1,
            Err(e) => parser.index >= parser.toks().len() && e.error_type
                == AstErrorType::UnexpectedToken && e.index == parser.index,
        },
{
    match parser.token() {
        Some(token) => Ok(token.range.1),
        None => Err(
            AstParseError {
                error_type: AstErrorType::UnexpectedToken,
                index: parser.get_current_index(),
            },
        ),
    }
}

fn get_end_position_of_previous_token(parser: &AstParser) -> (r: Result<usize, AstParseError>)
    requires
        parser.index >= 1,
    ensures
        match r {
            Ok(p) => parser.index - 1 < parser.toks().len() && p == parser.toks()[parser.index
                - 1].range.1,
            Err(e) => parser.index - 1 >= parser.toks().len() && e.error_type
                == AstErrorType::UnexpectedToken && e.index == parser.index,
        },
{
    match parser.peek_back() {
        Some(token) => Ok(token.range.1),
        None => Err(
            AstParseError {
                error_type: AstErrorType::UnexpectedToken,
                index: parser.get_current_index(),
            },
        ),
    }
}

} // verus!
