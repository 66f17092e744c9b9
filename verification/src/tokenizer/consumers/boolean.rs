use vstd::prelude::*;

use crate::tokenizer::consumers::{consumed_token, is_word, push_char, word_at};
use crate::tokenizer::tokenizer::Tokenizer;
use crate::tokenizer::{FileLocation, Literal, Token, TokenErrorType, TokenType, TokenizeError};

verus! {

pub fn is_true(tokenizer: &Tokenizer) -> (r: bool)
    requires
        tokenizer.wf(),
    ensures
        r == word_at(tokenizer.content(), tokenizer.index as int, "true"@),
{
    is_word(tokenizer, "true")
}

pub fn is_false(tokenizer: &Tokenizer) -> (r: bool)
    requires
        tokenizer.wf(),
    ensures
        r == word_at(tokenizer.content(), tokenizer.index as int, "false"@),
{
    is_word(tokenizer, "false")
}

pub fn is_boolean(tokenizer: &Tokenizer) -> (r: bool)
    requires
        tokenizer.wf(),
    ensures
        r == (word_at(tokenizer.content(), tokenizer.index as int, "true"@) || word_at(
            tokenizer.content(),
            tokenizer.index as int,
            "false"@,
        )),
{
    is_true(tokenizer) || is_false(tokenizer)
}

/// Consumes exactly `length` characters as one boolean literal token.
pub fn consume_value(tokenizer: &mut Tokenizer, length: usize) -> (r: Result<
    Token,
    TokenizeError,
>)
    requires
        old(tokenizer).wf(),
        1 <= length,
        old(tokenizer).index + length <= old(tokenizer).content().len(),
    ensures
        final(tokenizer).wf(),
        final(tokenizer).content() == old(tokenizer).content(),
        *final(tokenizer) == old(tokenizer).advanced((old(tokenizer).index + length) as usize),
        r matches Ok(t) && consumed_token(
            old(tokenizer).content(),
            *old(tokenizer),
            *final(tokenizer),
            t,
        ) && t.token_type == TokenType::Literal(Literal::Boolean) && t.value@ == t.raw_value@,
{
    let ghost content = tokenizer.content();

    let start = tokenizer.get_current_index();
    let start_pos = tokenizer.get_current_file_loc();

    let mut raw_value = String::new();

    let mut k: usize = 0;
    while k < length
        invariant
            tokenizer.wf(),
            content == tokenizer.content(),
            k <= length,
            tokenizer.index == start + k,
            start + length <= content.len(),
            *tokenizer == old(tokenizer).advanced(tokenizer.index),
            raw_value@ == content.subrange(start as int, tokenizer.index as int),
        decreases length - k,
    {
        let c = *tokenizer.consume().unwrap();
        push_char(&mut raw_value, c);
        proof {
            assert(raw_value@ =~= content.subrange(start as int, tokenizer.index as int));
        }
        k = k + 1;
    }

    let end = tokenizer.get_current_index();
    let end_pos = tokenizer.get_current_file_loc();
    let value = raw_value.clone();

    Ok(
        Token {
            token_type: TokenType::Literal(Literal::Boolean),
            value,
            raw_value,
            range: (start, end),
            loc: FileLocation { start: start_pos, end: end_pos },
        },
    )
}

fn consume_true(tokenizer: &mut Tokenizer) -> (r: Result<Token, TokenizeError>)
    requires
        old(tokenizer).wf(),
        word_at(old(tokenizer).content(), old(tokenizer).index as int, "true"@),
    ensures
        final(tokenizer).wf(),
        final(tokenizer).content() == old(tokenizer).content(),
        *final(tokenizer) == old(tokenizer).advanced((old(tokenizer).index + 4) as usize),
        r matches Ok(t) && consumed_token(
            old(tokenizer).content(),
            *old(tokenizer),
            *final(tokenizer),
            t,
        ) && t.token_type == TokenType::Literal(Literal::Boolean) && t.value@ == t.raw_value@
            && t.raw_value@ == "true"@,
{
    proof {
        reveal_strlit("true");
    }
    consume_value(tokenizer, 4)
}

fn consume_false(tokenizer: &mut Tokenizer) -> (r: Result<Token, TokenizeError>)
    requires
        old(tokenizer).wf(),
        word_at(old(tokenizer).content(), old(tokenizer).index as int, "false"@),
    ensures
        final(tokenizer).wf(),
        final(tokenizer).content() == old(tokenizer).content(),
        *final(tokenizer) == old(tokenizer).advanced((old(tokenizer).index + 5) as usize),
        r matches Ok(t) && consumed_token(
            old(tokenizer).content(),
            *old(tokenizer),
            *final(tokenizer),
            t,
        ) && t.token_type == TokenType::Literal(Literal::Boolean) && t.value@ == t.raw_value@
            && t.raw_value@ == "false"@,
{
    proof {
        reveal_strlit("false");
    }
    consume_value(tokenizer, 5)
}

/// Consumes `true` or `false` as a boolean literal token, or reports the
/// offending index.
pub fn consume_boolean(tokenizer: &mut Tokenizer) -> (r: Result<Token, TokenizeError>)
    requires
        old(tokenizer).wf(),
    ensures
        final(tokenizer).wf(),
        final(tokenizer).content() == old(tokenizer).content(),
        if word_at(old(tokenizer).content(), old(tokenizer).index as int, "true"@) {
            &&& *final(tokenizer) == old(tokenizer).advanced((old(tokenizer).index + 4) as usize)
            &&& r matches Ok(t) && consumed_token(
                old(tokenizer).content(),
                *old(tokenizer),
                *final(tokenizer),
                t,
            ) && t.token_type == TokenType::Literal(Literal::Boolean) && t.value@ == t.raw_value@
                && t.raw_value@ == "true"@
        } else if word_at(old(tokenizer).content(), old(tokenizer).index as int, "false"@) {
            &&& *final(tokenizer) == old(tokenizer).advanced((old(tokenizer).index + 5) as usize)
            &&& r matches Ok(t) && consumed_token(
                old(tokenizer).content(),
                *old(tokenizer),
                *final(tokenizer),
                t,
            ) && t.token_type == TokenType::Literal(Literal::Boolean) && t.value@ == t.raw_value@
                && t.raw_value@ == "false"@
        } else {
            &&& r matches Err(e) && e.error_type == TokenErrorType::UnexpectedToken && e.index
                == old(tokenizer).index
            &&& *final(tokenizer) == *old(tokenizer)
        },
{
    if is_true(tokenizer) {
        return consume_true(tokenizer);
    }

    if is_false(tokenizer) {
        return consume_false(tokenizer);
    }

    return Err(
        TokenizeError {
            error_type: TokenErrorType::UnexpectedToken,
            index: tokenizer.get_current_index(),
        },
    );
}

} // verus!
