use vstd::prelude::*;

use crate::tokenizer::consumers::{consumed_token, push_char};
use crate::tokenizer::tokenizer::Tokenizer;
use crate::tokenizer::util;
use crate::tokenizer::util::number_char;
use crate::tokenizer::{FileLocation, Literal, Token, TokenErrorType, TokenType, TokenizeError};

verus! {

/// The end of the maximal run of digits starting at `j`.
pub open spec fn scan_number(content: Seq<char>, j: int) -> int
    decreases content.len() - j,
{
    if j < 0 || j >= content.len() {
        content.len() as int
    } else if !number_char(content[j]) {
        j
    } else {
        scan_number(content, j + 1)
    }
}

pub proof fn lemma_scan_number_bounds(content: Seq<char>, j: int)
    requires
        0 <= j <= content.len(),
    ensures
        j <= scan_number(content, j) <= content.len(),
    decreases content.len() - j,
{
    if j < content.len() && number_char(content[j]) {
        lemma_scan_number_bounds(content, j + 1);
    }
}

pub fn is_number(tokenizer: &Tokenizer) -> (r: bool)
    requires
        tokenizer.wf(),
        tokenizer.index < tokenizer.content().len(),
    ensures
        r == number_char(tokenizer.content()[tokenizer.index as int]),
{
    let token = tokenizer.token().unwrap();

    util::is_number(token)
}

/// Consumes the maximal run of digits at the cursor as a number literal
/// token, or reports the offending index.
pub fn consume_number(tokenizer: &mut Tokenizer) -> (r: Result<Token, TokenizeError>)
    requires
        old(tokenizer).wf(),
        old(tokenizer).index < old(tokenizer).content().len(),
    ensures
        final(tokenizer).wf(),
        final(tokenizer).content() == old(tokenizer).content(),
        if number_char(old(tokenizer).content()[old(tokenizer).index as int]) {
            &&& *final(tokenizer) == old(tokenizer).advanced(
                scan_number(old(tokenizer).content(), old(tokenizer).index as int) as usize,
            )
            &&& r matches Ok(t) && consumed_token(
                old(tokenizer).content(),
                *old(tokenizer),
                *final(tokenizer),
                t,
            ) && t.token_type == TokenType::Literal(Literal::Number) && t.value@ == t.raw_value@
        } else {
            &&& r matches Err(e) && e.error_type == TokenErrorType::UnexpectedToken && e.index
                == old(tokenizer).index
            &&& *final(tokenizer) == *old(tokenizer)
        },
{
    if !is_number(tokenizer) {
        return Err(
            TokenizeError {
                error_type: TokenErrorType::UnexpectedToken,
                index: tokenizer.get_current_index(),
            },
        );
    }

    let ghost content = tokenizer.content();
    let ghost start_i = tokenizer.index as int;

    let mut value = String::new();
    let start = tokenizer.get_current_index();
    let start_pos = tokenizer.get_current_file_loc();

    let mut token: Option<char> = match tokenizer.consume() {
        Some(c) => Some(*c),
        None => None,
    };

    while token.is_some() && util::is_number(&token.unwrap())
        invariant
            tokenizer.wf(),
            content == tokenizer.content(),
            start_i == start,
            start_i < tokenizer.index <= content.len() + 1,
            *tokenizer == old(tokenizer).advanced(tokenizer.index),
            token matches Some(c) ==> tokenizer.index - 1 < content.len() && c
                == content[tokenizer.index - 1],
            token is None ==> tokenizer.index - 1 >= content.len(),
            value@ == content.subrange(start_i, tokenizer.index - 1),
            scan_number(content, start_i) == scan_number(content, tokenizer.index - 1),
        decreases content.len() + 1 - tokenizer.index,
    {
        push_char(&mut value, token.unwrap());
        proof {
            assert(value@ =~= content.subrange(start_i, tokenizer.index as int));
        }
        token = match tokenizer.consume() {
            Some(c) => Some(*c),
            None => None,
        };
    }

    tokenizer.walk_back();

    let ghost end_i = tokenizer.index as int;
    proof {
        assert(end_i == scan_number(content, start_i));
        assert(scan_number(content, start_i) == scan_number(content, start_i + 1));
        lemma_scan_number_bounds(content, start_i + 1);
    }

    let end = tokenizer.get_current_index();
    let end_pos = tokenizer.get_current_file_loc();
    let raw_value = value.clone();

    Ok(
        Token {
            token_type: TokenType::Literal(Literal::Number),
            raw_value,
            value,
            range: (start, end),
            loc: FileLocation { start: start_pos, end: end_pos },
        },
    )
}

/// Truncating the source at `k` does not move a scan that ends at or before
/// `k`.
pub proof fn lemma_scan_number_prefix(content: Seq<char>, k: int, j: int)
    requires
        0 <= j <= k <= content.len(),
        scan_number(content, j) <= k,
    ensures
        scan_number(content.subrange(0, k), j) == scan_number(content, j),
    decreases k - j,
{
    lemma_scan_number_bounds(content, j);
    let prefix = content.subrange(0, k);
    if k == content.len() {
        assert(prefix =~= content);
    } else if j < k {
        if number_char(content[j]) {
            lemma_scan_number_prefix(content, k, j + 1);
        }
    }
}

} // verus!
