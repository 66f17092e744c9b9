use vstd::prelude::*;

use crate::tokenizer::consumers::{consumed_token, push_char};
use crate::tokenizer::tokenizer::Tokenizer;
use crate::tokenizer::util;
use crate::tokenizer::{FileLocation, Separator, Token, TokenErrorType, TokenType, TokenizeError};

verus! {

pub fn is_curly_brace(tokenizer: &Tokenizer) -> (r: bool)
    requires
        tokenizer.wf(),
        tokenizer.index < tokenizer.content().len(),
    ensures
        r == (tokenizer.content()[tokenizer.index as int] == '{' || tokenizer.content()[tokenizer.index as int] == '}'),
{
    let token = tokenizer.token().unwrap();

    util::is_curly_brace(token)
}

/// Consumes a single `{` or `}` as a one-character token.
pub fn consume_curly_brace(tokenizer: &mut Tokenizer) -> (r: Result<Token, TokenizeError>)
    requires
        old(tokenizer).wf(),
        old(tokenizer).index < old(tokenizer).content().len(),
    ensures
        final(tokenizer).wf(),
        final(tokenizer).content() == old(tokenizer).content(),
        if old(tokenizer).content()[old(tokenizer).index as int] == '{' || old(tokenizer).content()[old(tokenizer).index as int] == '}' {
            &&& *final(tokenizer) == old(tokenizer).advanced((old(tokenizer).index + 1) as usize)
            &&& r matches Ok(t) && consumed_token(
                old(tokenizer).content(),
                *old(tokenizer),
                *final(tokenizer),
                t,
            ) && t.token_type == TokenType::Separator(Separator::CurlyBrace) && t.value@
                == t.raw_value@
        } else {
            &&& r matches Err(e) && e.error_type == TokenErrorType::UnexpectedToken && e.index
                == old(tokenizer).index
            &&& *final(tokenizer) == *old(tokenizer)
        },
{
    if !is_curly_brace(tokenizer) {
        return Err(
            TokenizeError {
                error_type: TokenErrorType::UnexpectedToken,
                index: tokenizer.get_current_index(),
            },
        );
    }

    let start = tokenizer.get_current_index();
    let start_pos = tokenizer.get_current_file_loc();
    let c = *tokenizer.consume().unwrap();
    let end = tokenizer.get_current_index();
    let end_pos = tokenizer.get_current_file_loc();

    let mut token = String::new();
    push_char(&mut token, c);
    proof {
        assert(token@ =~= old(tokenizer).content().subrange(start as int, end as int));
    }

    Ok(
        Token {
            token_type: TokenType::Separator(Separator::CurlyBrace),
            value: token.clone(),
            raw_value: token,
            range: (start, end),
            loc: FileLocation { start: start_pos, end: end_pos },
        },
    )
}

} // verus!
