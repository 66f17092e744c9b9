use vstd::prelude::*;

use crate::tokenizer::consumers::{consumed_token, push_char};
use crate::tokenizer::tokenizer::Tokenizer;
use crate::tokenizer::util;
use crate::tokenizer::util::{escape_char, string_delimiter_char};
use crate::tokenizer::{FileLocation, Literal, Token, TokenErrorType, TokenType, TokenizeError};

verus! {

/// Scans forward from `j` for the first unescaped closing `delim`.
/// `Ok(e)` is its position; `Err(p)` is the position of the line break or
/// input end that was reached first, which makes the literal unterminated.
pub open spec fn scan_string(content: Seq<char>, delim: char, j: int) -> Result<int, int>
    decreases content.len() - j,
{
    if j < 0 || j >= content.len() {
        Err(content.len() as int)
    } else if content[j] == delim && content[j - 1] != '\\' {
        Ok(j)
    } else if content[j] == '\n' {
        Err(j)
    } else {
        scan_string(content, delim, j + 1)
    }
}

pub proof fn lemma_scan_string_bounds(content: Seq<char>, delim: char, j: int)
    requires
        0 <= j <= content.len(),
    ensures
        scan_string(content, delim, j) matches Ok(e) ==> j <= e < content.len(),
        scan_string(content, delim, j) matches Err(p) ==> j <= p <= content.len(),
    decreases content.len() - j,
{
    if j < content.len() && !(content[j] == delim && content[j - 1] != '\\') && content[j] != '\n' {
        lemma_scan_string_bounds(content, delim, j + 1);
    }
}

/// The semantic contents of a string literal whose characters occupy
/// `[lo, j)`: every character except a backslash that is not itself escaped.
pub open spec fn string_payload(content: Seq<char>, lo: int, j: int) -> Seq<char>
    decreases j - lo,
{
    if j <= lo {
        Seq::empty()
    } else if !escape_char(content[j - 1]) || content[j - 2] == '\\' {
        string_payload(content, lo, j - 1).push(content[j - 1])
    } else {
        string_payload(content, lo, j - 1)
    }
}

pub fn is_string(tokenizer: &Tokenizer) -> (r: bool)
    requires
        tokenizer.wf(),
        tokenizer.index < tokenizer.content().len(),
    ensures
        r == string_delimiter_char(tokenizer.content()[tokenizer.index as int]),
{
    let token = tokenizer.token().unwrap();

    util::is_string_delimiter(token)
}

/// The character before the cursor is the escape character.
fn is_escaped(tokenizer: &Tokenizer) -> (r: bool)
    requires
        tokenizer.wf(),
        1 <= tokenizer.index <= tokenizer.content().len(),
    ensures
        r == (tokenizer.content()[tokenizer.index - 1] == '\\'),
{
    let c = match tokenizer.peek_back() {
        Some(v) => *v,
        None => ' ',
    };

    c == '\\'
}

/// The cursor stands on an unescaped occurrence of the delimiter.
fn is_end_string(tokenizer: &Tokenizer, delimiter: char) -> (r: bool)
    requires
        tokenizer.wf(),
        1 <= tokenizer.index < tokenizer.content().len(),
    ensures
        r == (tokenizer.content()[tokenizer.index as int] == delimiter
            && tokenizer.content()[tokenizer.index - 1] != '\\'),
{
    if is_escaped(tokenizer) {
        return false;
    }

    let token = tokenizer.token().unwrap();

    *token == delimiter
}

/// Consumes a quoted string literal. `raw_value` keeps the quotes and every
/// escape character; `value` holds the unescaped contents. Reaching a line
/// break or the end of the input before the closing delimiter is a fatal
/// unterminated-literal error, reported at the index where it was detected.
pub fn consume_string(tokenizer: &mut Tokenizer) -> (r: Result<Token, TokenizeError>)
    requires
        old(tokenizer).wf(),
        old(tokenizer).index < old(tokenizer).content().len(),
    ensures
        final(tokenizer).wf(),
        final(tokenizer).content() == old(tokenizer).content(),
        if string_delimiter_char(old(tokenizer).content()[old(tokenizer).index as int]) {
            match scan_string(
                old(tokenizer).content(),
                old(tokenizer).content()[old(tokenizer).index as int],
                old(tokenizer).index + 1,
            ) {
                Ok(e) => {
                    &&& *final(tokenizer) == old(tokenizer).advanced((e + 1) as usize)
                    &&& r matches Ok(t) && consumed_token(
                        old(tokenizer).content(),
                        *old(tokenizer),
                        *final(tokenizer),
                        t,
                    ) && t.token_type == TokenType::Literal(Literal::String) && t.value@
                        == string_payload(old(tokenizer).content(), old(tokenizer).index + 1, e)
                },
                Err(p) => {
                    &&& *final(tokenizer) == old(tokenizer).advanced(p as usize)
                    &&& r matches Err(e) && e.error_type
                        == TokenErrorType::UnterminatedStringLiteral && e.index == p
                },
            }
        } else {
            &&& r matches Err(e) && e.error_type == TokenErrorType::UnexpectedToken && e.index
                == old(tokenizer).index
            &&& *final(tokenizer) == *old(tokenizer)
        },
{
    let delimiter = *tokenizer.token().unwrap();

    if !util::is_string_delimiter(&delimiter) {
        return Err(
            TokenizeError {
                error_type: TokenErrorType::UnexpectedToken,
                index: tokenizer.get_current_index(),
            },
        );
    }

    let ghost content = tokenizer.content();

    let mut value = String::new();
    let mut raw_value = String::new();
    push_char(&mut raw_value, delimiter);

    let start = tokenizer.get_current_index();
    let start_pos = tokenizer.get_current_file_loc();

    tokenizer.next();

    let mut token: Option<char> = match tokenizer.token() {
        Some(c) => Some(*c),
        None => None,
    };

    while token.is_some() && !is_end_string(tokenizer, delimiter)
        invariant
            tokenizer.wf(),
            content == tokenizer.content(),
            start == old(tokenizer).index,
            delimiter == content[start as int],
            string_delimiter_char(delimiter),
            start + 1 <= tokenizer.index <= content.len(),
            *tokenizer == old(tokenizer).advanced(tokenizer.index),
            token matches Some(c) ==> tokenizer.index < content.len() && c
                == content[tokenizer.index as int],
            token is None ==> tokenizer.index >= content.len(),
            scan_string(content, delimiter, start + 1) == scan_string(
                content,
                delimiter,
                tokenizer.index as int,
            ),
            raw_value@ == content.subrange(start as int, tokenizer.index as int),
            value@ == string_payload(content, start + 1, tokenizer.index as int),
        decreases content.len() - tokenizer.index,
    {
        let val = token.unwrap();

        if util::is_eol(&val) {
            return Err(
                TokenizeError {
                    error_type: TokenErrorType::UnterminatedStringLiteral,
                    index: tokenizer.get_current_index(),
                },
            );
        }

        push_char(&mut raw_value, val);
        proof {
            assert(raw_value@ =~= content.subrange(start as int, tokenizer.index + 1));
        }

        if !util::is_escape_char(&val) || is_escaped(tokenizer) {
            push_char(&mut value, val);
        }

        tokenizer.next();
        token = match tokenizer.token() {
            Some(c) => Some(*c),
            None => None,
        };
    }

    // the cursor must now stand on the matching closing delimiter
    if token.is_some() && token.unwrap() == delimiter {
        let val = token.unwrap();
        push_char(&mut raw_value, val);
        proof {
            assert(raw_value@ =~= content.subrange(start as int, tokenizer.index + 1));
        }

        // the closing delimiter itself is consumed as well
        tokenizer.next();
    } else {
        return Err(
            TokenizeError {
                error_type: TokenErrorType::UnterminatedStringLiteral,
                index: tokenizer.get_current_index(),
            },
        );
    }

    let end = tokenizer.get_current_index();
    let end_pos = tokenizer.get_current_file_loc();

    Ok(
        Token {
            token_type: TokenType::Literal(Literal::String),
            value,
            raw_value,
            range: (start, end),
            loc: FileLocation { start: start_pos, end: end_pos },
        },
    )
}

/// Truncating the source at `k` does not change a string scan that closes at
/// or before `k`.
pub proof fn lemma_scan_string_prefix(content: Seq<char>, k: int, delim: char, j: int)
    requires
        1 <= j <= k <= content.len(),
        scan_string(content, delim, j) matches Ok(e) && e < k,
    ensures
        scan_string(content.subrange(0, k), delim, j) == scan_string(content, delim, j),
    decreases k - j,
{
    lemma_scan_string_bounds(content, delim, j);
    let prefix = content.subrange(0, k);
    if k == content.len() {
        assert(prefix =~= content);
    } else if j < k {
        if !(content[j] == delim && content[j - 1] != '\\') && content[j] != '\n' {
            lemma_scan_string_prefix(content, k, delim, j + 1);
        }
    }
}

/// Truncating the source does not change the payload of a string literal
/// that lies inside the kept part.
pub proof fn lemma_string_payload_prefix(content: Seq<char>, k: int, lo: int, j: int)
    requires
        1 <= lo,
        lo - 1 <= j <= k <= content.len(),
    ensures
        string_payload(content.subrange(0, k), lo, j) == string_payload(content, lo, j),
    decreases j - lo,
{
    let prefix = content.subrange(0, k);
    if k == content.len() {
        assert(prefix =~= content);
    } else if j > lo {
        lemma_string_payload_prefix(content, k, lo, j - 1);
    }
}

} // verus!
