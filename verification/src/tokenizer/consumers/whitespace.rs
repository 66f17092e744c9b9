use vstd::prelude::*;

use crate::tokenizer::tokenizer::Tokenizer;
use crate::tokenizer::util;
use crate::tokenizer::util::whitespace_char;
use crate::tokenizer::{TokenErrorType, TokenizeError};

verus! {

pub fn is_whitespace(tokenizer: &Tokenizer) -> (r: bool)
    requires
        tokenizer.wf(),
        tokenizer.index < tokenizer.content().len(),
    ensures
        r == whitespace_char(tokenizer.content()[tokenizer.index as int]),
{
    let token = tokenizer.token().unwrap();

    util::is_whitespace(token)
}

/// Consumes a single whitespace character, or reports the offending index.
pub fn consume_whitespace(tokenizer: &mut Tokenizer) -> (r: Result<(), TokenizeError>)
    requires
        old(tokenizer).wf(),
        old(tokenizer).index < old(tokenizer).content().len(),
    ensures
        final(tokenizer).wf(),
        final(tokenizer).content() == old(tokenizer).content(),
        if whitespace_char(old(tokenizer).content()[old(tokenizer).index as int]) {
            &&& r is Ok
            &&& *final(tokenizer) == old(tokenizer).advanced(
                (old(tokenizer).index + 1) as usize,
            )
        } else {
            &&& r matches Err(e) && e.error_type == TokenErrorType::UnexpectedToken && e.index
                == old(tokenizer).index
            &&& *final(tokenizer) == *old(tokenizer)
        },
{
    if !is_whitespace(tokenizer) {
        return Err(
            TokenizeError {
                error_type: TokenErrorType::UnexpectedToken,
                index: tokenizer.get_current_index(),
            },
        );
    }

    let _ = tokenizer.consume();

    return Ok(());
}

} // verus!
