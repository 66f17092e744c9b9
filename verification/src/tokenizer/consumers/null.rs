use vstd::prelude::*;

use crate::tokenizer::consumers::{consumed_token, is_word, push_char, word_at};
use crate::tokenizer::tokenizer::Tokenizer;
use crate::tokenizer::{FileLocation, Literal, Token, TokenErrorType, TokenType, TokenizeError};

verus! {

pub fn is_null(tokenizer: &Tokenizer) -> (r: bool)
    requires
        tokenizer.wf(),
    ensures
        r == word_at(tokenizer.content(), tokenizer.index as int, "null"@),
{
    is_word(tokenizer, "null")
}

/// Consumes `null` as a null literal token whose semantic value is empty,
/// or reports the offending index.
pub fn consume_null(tokenizer: &mut Tokenizer) -> (r: Result<Token, TokenizeError>)
    requires
        old(tokenizer).wf(),
    ensures
        final(tokenizer).wf(),
        final(tokenizer).content() == old(tokenizer).content(),
        if word_at(old(tokenizer).content(), old(tokenizer).index as int, "null"@) {
            &&& *final(tokenizer) == old(tokenizer).advanced((old(tokenizer).index + 4) as usize)
            &&& r matches Ok(t) && consumed_token(
                old(tokenizer).content(),
                *old(tokenizer),
                *final(tokenizer),
                t,
            ) && t.token_type == TokenType::Literal(Literal::Null) && t.value@
                == Seq::<char>::empty() && t.raw_value@ == "null"@
        } else {
            &&& r matches Err(e) && e.error_type == TokenErrorType::UnexpectedToken && e.index
                == old(tokenizer).index
            &&& *final(tokenizer) == *old(tokenizer)
        },
{
    if !is_null(tokenizer) {
        return Err(
            TokenizeError {
                error_type: TokenErrorType::UnexpectedToken,
                index: tokenizer.get_current_index(),
            },
        );
    }

    proof {
        reveal_strlit("null");
    }

    let ghost content = tokenizer.content();

    let start = tokenizer.get_current_index();
    let start_pos = tokenizer.get_current_file_loc();

    let mut raw_value = String::new();

    let mut k: usize = 0;
    while k < 4
        invariant
            tokenizer.wf(),
            content == tokenizer.content(),
            k <= 4,
            tokenizer.index == start + k,
            start + 4 <= content.len(),
            *tokenizer == old(tokenizer).advanced(tokenizer.index),
            raw_value@ == content.subrange(start as int, tokenizer.index as int),
        decreases 4 - k,
    {
        let c = *tokenizer.consume().unwrap();
        push_char(&mut raw_value, c);
        proof {
            assert(raw_value@ =~= content.subrange(start as int, tokenizer.index as int));
        }
        k = k + 1;
    }

    let end = tokenizer.get_current_index();
    let end_pos = tokenizer.get_current_file_loc();

    Ok(
        Token {
            token_type: TokenType::Literal(Literal::Null),
            value: String::new(),
            raw_value,
            range: (start, end),
            loc: FileLocation { start: start_pos, end: end_pos },
        },
    )
}

} // verus!
