use vstd::prelude::*;

use crate::tokenizer::consumers::{consumed_token, push_char};
use crate::tokenizer::tokenizer::Tokenizer;
use crate::tokenizer::util;
use crate::tokenizer::util::identifier_char;
use crate::tokenizer::{FileLocation, Token, TokenType, TokenizeError};

verus! {

/// The end of the maximal run of letters starting at `j`.
pub open spec fn scan_identifier(content: Seq<char>, j: int) -> int
    decreases content.len() - j,
{
    if j < 0 || j >= content.len() {
        content.len() as int
    } else if !identifier_char(content[j]) {
        j
    } else {
        scan_identifier(content, j + 1)
    }
}

pub proof fn lemma_scan_identifier_bounds(content: Seq<char>, j: int)
    requires
        0 <= j <= content.len(),
    ensures
        j <= scan_identifier(content, j) <= content.len(),
    decreases content.len() - j,
{
    if j < content.len() && identifier_char(content[j]) {
        lemma_scan_identifier_bounds(content, j + 1);
    }
}

pub fn is_identifier(tokenizer: &Tokenizer) -> (r: bool)
    requires
        tokenizer.wf(),
        tokenizer.index < tokenizer.content().len(),
    ensures
        r == identifier_char(tokenizer.content()[tokenizer.index as int]),
{
    let token = tokenizer.token().unwrap();

    util::is_identifier(token)
}

/// Consumes the maximal run of letters at the cursor as an identifier token.
pub fn consume_identifier(tokenizer: &mut Tokenizer) -> (r: Result<Token, TokenizeError>)
    requires
        old(tokenizer).wf(),
        old(tokenizer).index < old(tokenizer).content().len(),
        identifier_char(old(tokenizer).content()[old(tokenizer).index as int]),
    ensures
        final(tokenizer).wf(),
        final(tokenizer).content() == old(tokenizer).content(),
        *final(tokenizer) == old(tokenizer).advanced(
            scan_identifier(old(tokenizer).content(), old(tokenizer).index as int) as usize,
        ),
        r matches Ok(t) && consumed_token(
            old(tokenizer).content(),
            *old(tokenizer),
            *final(tokenizer),
            t,
        ) && t.token_type == TokenType::Identifier && t.value@ == t.raw_value@,
{
    let ghost content = tokenizer.content();
    let ghost start_i = tokenizer.index as int;

    let mut value = String::new();
    let start = tokenizer.get_current_index();
    let start_pos = tokenizer.get_current_file_loc();

    let mut token: Option<char> = match tokenizer.consume() {
        Some(c) => Some(*c),
        None => None,
    };

    while token.is_some() && util::is_identifier(&token.unwrap())
        invariant
            tokenizer.wf(),
            content == tokenizer.content(),
            start_i == start,
            start_i < tokenizer.index <= content.len() + 1,
            *tokenizer == old(tokenizer).advanced(tokenizer.index),
            token matches Some(c) ==> tokenizer.index - 1 < content.len() && c
                == content[tokenizer.index - 1],
            token is None ==> tokenizer.index - 1 >= content.len(),
            value@ == content.subrange(start_i, tokenizer.index - 1),
            scan_identifier(content, start_i) == scan_identifier(content, tokenizer.index - 1),
        decreases content.len() + 1 - tokenizer.index,
    {
        push_char(&mut value, token.unwrap());
        proof {
            assert(value@ =~= content.subrange(start_i, tokenizer.index as int));
        }
        token = match tokenizer.consume() {
            Some(c) => Some(*c),
            None => None,
        };
    }

    tokenizer.walk_back();

    let ghost end_i = tokenizer.index as int;
    proof {
        assert(end_i == scan_identifier(content, start_i));
        assert(scan_identifier(content, start_i) == scan_identifier(content, start_i + 1));
        lemma_scan_identifier_bounds(content, start_i + 1);
    }

    let end = tokenizer.get_current_index();
    let end_pos = tokenizer.get_current_file_loc();
    let raw_value = value.clone();

    Ok(
        Token {
            token_type: TokenType::Identifier,
            raw_value,
            value,
            range: (start, end),
            loc: FileLocation { start: start_pos, end: end_pos },
        },
    )
}

/// Truncating the source at `k` does not move a scan that ends at or before
/// `k`.
pub proof fn lemma_scan_identifier_prefix(content: Seq<char>, k: int, j: int)
    requires
        0 <= j <= k <= content.len(),
        scan_identifier(content, j) <= k,
    ensures
        scan_identifier(content.subrange(0, k), j) == scan_identifier(content, j),
    decreases k - j,
{
    lemma_scan_identifier_bounds(content, j);
    let prefix = content.subrange(0, k);
    if k == content.len() {
        assert(prefix =~= content);
    } else if j < k {
        if identifier_char(content[j]) {
            lemma_scan_identifier_prefix(content, k, j + 1);
        }
    }
}

} // verus!
