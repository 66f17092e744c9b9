use vstd::prelude::*;

use crate::tokenizer::tokenizer::Tokenizer;
use crate::tokenizer::util;
use crate::tokenizer::util::eol_char;
use crate::tokenizer::{TokenErrorType, TokenizeError};

verus! {

pub fn is_eol(tokenizer: &Tokenizer) -> (r: bool)
    requires
        tokenizer.wf(),
        tokenizer.index < tokenizer.content().len(),
    ensures
        r == eol_char(tokenizer.content()[tokenizer.index as int]),
{
    let token = tokenizer.token().unwrap();

    util::is_eol(token)
}

/// Consumes a single line break and records the new line start, or reports
/// the offending index.
pub fn consume_eol(tokenizer: &mut Tokenizer) -> (r: Result<(), TokenizeError>)
    requires
        old(tokenizer).wf(),
        old(tokenizer).index < old(tokenizer).content().len(),
    ensures
        final(tokenizer).wf(),
        final(tokenizer).content() == old(tokenizer).content(),
        if eol_char(old(tokenizer).content()[old(tokenizer).index as int]) {
            &&& r is Ok
            &&& *final(tokenizer) == old(tokenizer).advanced(
                (old(tokenizer).index + 1) as usize,
            ).line_marked()
        } else {
            &&& r matches Err(e) && e.error_type == TokenErrorType::UnexpectedToken && e.index
                == old(tokenizer).index
            &&& *final(tokenizer) == *old(tokenizer)
        },
{
    if !is_eol(tokenizer) {
        return Err(
            TokenizeError {
                error_type: TokenErrorType::UnexpectedToken,
                index: tokenizer.get_current_index(),
            },
        );
    }

    tokenizer.next();
    tokenizer.found_new_line();

    return Ok(())
}

} // verus!
