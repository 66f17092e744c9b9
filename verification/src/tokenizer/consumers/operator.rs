use vstd::prelude::*;
use vstd::string::StrSliceExecFns;

use crate::tokenizer::consumers::{consumed_token, is_word, lemma_word_at_prefix, push_char, word_at};
use crate::tokenizer::tokenizer::Tokenizer;
use crate::tokenizer::{FileLocation, Token, TokenErrorType, TokenType, TokenizeError};

verus! {

/// Membership in the closed operator vocabulary.
pub open spec fn is_operator_text(w: Seq<char>) -> bool {
    ||| w == ">>>="@
    ||| w == "**="@
    ||| w == "<<="@
    ||| w == ">>="@
    ||| w == "&&="@
    ||| w == "||="@
    ||| w == "??="@
    ||| w == "==="@
    ||| w == "!=="@
    ||| w == ">>>"@
    ||| w == "+="@
    ||| w == "-="@
    ||| w == "*="@
    ||| w == "/="@
    ||| w == "%="@
    ||| w == "&="@
    ||| w == "^="@
    ||| w == "|="@
    ||| w == "=="@
    ||| w == "!="@
    ||| w == ">="@
    ||| w == "<="@
    ||| w == "++"@
    ||| w == "--"@
    ||| w == "**"@
    ||| w == ">>"@
    ||| w == "&&"@
    ||| w == "||"@
    ||| w == "="@
    ||| w == ">"@
    ||| w == "<"@
    ||| w == "%"@
    ||| w == "-"@
    ||| w == "+"@
    ||| w == "&"@
    ||| w == "|"@
    ||| w == "^"@
    ||| w == "~"@
    ||| w == "!"@
}

/// The first operator lexeme, trying longer lexemes before shorter ones so
/// that the longest match wins, that occurs at position `i` of `content`;
/// none when no operator does.
#[verifier::opaque]
pub open spec fn spec_find_operator(content: Seq<char>, i: int) -> Option<Seq<char>> {
    if word_at(content, i, ">>>="@) {
        Some(">>>="@)
    } else if word_at(content, i, "**="@) {
        Some("**="@)
    } else if word_at(content, i, "<<="@) {
        Some("<<="@)
    } else if word_at(content, i, ">>="@) {
        Some(">>="@)
    } else if word_at(content, i, "&&="@) {
        Some("&&="@)
    } else if word_at(content, i, "||="@) {
        Some("||="@)
    } else if word_at(content, i, "??="@) {
        Some("??="@)
    } else if word_at(content, i, "==="@) {
        Some("==="@)
    } else if word_at(content, i, "!=="@) {
        Some("!=="@)
    } else if word_at(content, i, ">>>"@) {
        Some(">>>"@)
    } else if word_at(content, i, "+="@) {
        Some("+="@)
    } else if word_at(content, i, "-="@) {
        Some("-="@)
    } else if word_at(content, i, "*="@) {
        Some("*="@)
    } else if word_at(content, i, "/="@) {
        Some("/="@)
    } else if word_at(content, i, "%="@) {
        Some("%="@)
    } else if word_at(content, i, "&="@) {
        Some("&="@)
    } else if word_at(content, i, "^="@) {
        Some("^="@)
    } else if word_at(content, i, "|="@) {
        Some("|="@)
    } else if word_at(content, i, "=="@) {
        Some("=="@)
    } else if word_at(content, i, "!="@) {
        Some("!="@)
    } else if word_at(content, i, ">="@) {
        Some(">="@)
    } else if word_at(content, i, "<="@) {
        Some("<="@)
    } else if word_at(content, i, "++"@) {
        Some("++"@)
    } else if word_at(content, i, "--"@) {
        Some("--"@)
    } else if word_at(content, i, "**"@) {
        Some("**"@)
    } else if word_at(content, i, ">>"@) {
        Some(">>"@)
    } else if word_at(content, i, "&&"@) {
        Some("&&"@)
    } else if word_at(content, i, "||"@) {
        Some("||"@)
    } else if word_at(content, i, "="@) {
        Some("="@)
    } else if word_at(content, i, ">"@) {
        Some(">"@)
    } else if word_at(content, i, "<"@) {
        Some("<"@)
    } else if word_at(content, i, "%"@) {
        Some("%"@)
    } else if word_at(content, i, "-"@) {
        Some("-"@)
    } else if word_at(content, i, "+"@) {
        Some("+"@)
    } else if word_at(content, i, "&"@) {
        Some("&"@)
    } else if word_at(content, i, "|"@) {
        Some("|"@)
    } else if word_at(content, i, "^"@) {
        Some("^"@)
    } else if word_at(content, i, "~"@) {
        Some("~"@)
    } else if word_at(content, i, "!"@) {
        Some("!"@)
    } else {
        None
    }
}

pub fn is_operator(tokenizer: &Tokenizer, operator: &str) -> (r: bool)
    requires
        tokenizer.wf(),
    ensures
        r == word_at(tokenizer.content(), tokenizer.index as int, operator@),
{
    is_word(tokenizer, operator)
}

/// Tries every operator lexeme, longest first, and returns the first that
/// occurs at the cursor (the maximal-munch policy).
pub fn find_operator(tokenizer: &Tokenizer) -> (r: Result<&'static str, ()>)
    requires
        tokenizer.wf(),
    ensures
        r matches Ok(w) ==> spec_find_operator(tokenizer.content(), tokenizer.index as int)
            == Some(w@) && word_at(tokenizer.content(), tokenizer.index as int, w@) && w@.len() >= 1
            && is_operator_text(w@),
        r is Err ==> spec_find_operator(tokenizer.content(), tokenizer.index as int) is None,
{
    proof {
        reveal(spec_find_operator);
        reveal_strlit(">>>=");
        reveal_strlit("**=");
        reveal_strlit("<<=");
        reveal_strlit(">>=");
        reveal_strlit("&&=");
        reveal_strlit("||=");
        reveal_strlit("??=");
        reveal_strlit("===");
        reveal_strlit("!==");
        reveal_strlit(">>>");
        reveal_strlit("+=");
        reveal_strlit("-=");
        reveal_strlit("*=");
        reveal_strlit("/=");
        reveal_strlit("%=");
        reveal_strlit("&=");
        reveal_strlit("^=");
        reveal_strlit("|=");
        reveal_strlit("==");
        reveal_strlit("!=");
        reveal_strlit(">=");
        reveal_strlit("<=");
        reveal_strlit("++");
        reveal_strlit("--");
        reveal_strlit("**");
        reveal_strlit(">>");
        reveal_strlit("&&");
        reveal_strlit("||");
        reveal_strlit("=");
        reveal_strlit(">");
        reveal_strlit("<");
        reveal_strlit("%");
        reveal_strlit("-");
        reveal_strlit("+");
        reveal_strlit("&");
        reveal_strlit("|");
        reveal_strlit("^");
        reveal_strlit("~");
        reveal_strlit("!");
    }
    if is_word(tokenizer, ">>>=") {
        return Ok(">>>=");
    }
    if is_word(tokenizer, "**=") {
        return Ok("**=");
    }
    if is_word(tokenizer, "<<=") {
        return Ok("<<=");
    }
    if is_word(tokenizer, ">>=") {
        return Ok(">>=");
    }
    if is_word(tokenizer, "&&=") {
        return Ok("&&=");
    }
    if is_word(tokenizer, "||=") {
        return Ok("||=");
    }
    if is_word(tokenizer, "??=") {
        return Ok("??=");
    }
    if is_word(tokenizer, "===") {
        return Ok("===");
    }
    if is_word(tokenizer, "!==") {
        return Ok("!==");
    }
    if is_word(tokenizer, ">>>") {
        return Ok(">>>");
    }
    if is_word(tokenizer, "+=") {
        return Ok("+=");
    }
    if is_word(tokenizer, "-=") {
        return Ok("-=");
    }
    if is_word(tokenizer, "*=") {
        return Ok("*=");
    }
    if is_word(tokenizer, "/=") {
        return Ok("/=");
    }
    if is_word(tokenizer, "%=") {
        return Ok("%=");
    }
    if is_word(tokenizer, "&=") {
        return Ok("&=");
    }
    if is_word(tokenizer, "^=") {
        return Ok("^=");
    }
    if is_word(tokenizer, "|=") {
        return Ok("|=");
    }
    if is_word(tokenizer, "==") {
        return Ok("==");
    }
    if is_word(tokenizer, "!=") {
        return Ok("!=");
    }
    if is_word(tokenizer, ">=") {
        return Ok(">=");
    }
    if is_word(tokenizer, "<=") {
        return Ok("<=");
    }
    if is_word(tokenizer, "++") {
        return Ok("++");
    }
    if is_word(tokenizer, "--") {
        return Ok("--");
    }
    if is_word(tokenizer, "**") {
        return Ok("**");
    }
    if is_word(tokenizer, ">>") {
        return Ok(">>");
    }
    if is_word(tokenizer, "&&") {
        return Ok("&&");
    }
    if is_word(tokenizer, "||") {
        return Ok("||");
    }
    if is_word(tokenizer, "=") {
        return Ok("=");
    }
    if is_word(tokenizer, ">") {
        return Ok(">");
    }
    if is_word(tokenizer, "<") {
        return Ok("<");
    }
    if is_word(tokenizer, "%") {
        return Ok("%");
    }
    if is_word(tokenizer, "-") {
        return Ok("-");
    }
    if is_word(tokenizer, "+") {
        return Ok("+");
    }
    if is_word(tokenizer, "&") {
        return Ok("&");
    }
    if is_word(tokenizer, "|") {
        return Ok("|");
    }
    if is_word(tokenizer, "^") {
        return Ok("^");
    }
    if is_word(tokenizer, "~") {
        return Ok("~");
    }
    if is_word(tokenizer, "!") {
        return Ok("!");
    }

    return Err(());
}

/// Consumes the given operator lexeme (which must occur at the cursor) as an
/// operator token, or reports the offending index.
pub fn consume_operator(tokenizer: &mut Tokenizer, operator: &str) -> (r: Result<
    Token,
    TokenizeError,
>)
    requires
        old(tokenizer).wf(),
        operator@.len() >= 1,
    ensures
        final(tokenizer).wf(),
        final(tokenizer).content() == old(tokenizer).content(),
        if word_at(old(tokenizer).content(), old(tokenizer).index as int, operator@) {
            &&& *final(tokenizer) == old(tokenizer).advanced(
                (old(tokenizer).index + operator@.len()) as usize,
            )
            &&& r matches Ok(t) && consumed_token(
                old(tokenizer).content(),
                *old(tokenizer),
                *final(tokenizer),
                t,
            ) && t.token_type == TokenType::Operator && t.value@ == t.raw_value@ && t.raw_value@
                == operator@
        } else {
            &&& r matches Err(e) && e.error_type == TokenErrorType::UnexpectedToken && e.index
                == old(tokenizer).index
            &&& *final(tokenizer) == *old(tokenizer)
        },
{
    if !is_operator(tokenizer, operator) {
        return Err(
            TokenizeError {
                error_type: TokenErrorType::UnexpectedToken,
                index: tokenizer.get_current_index(),
            },
        );
    }

    let ghost content = tokenizer.content();

    let start = tokenizer.get_current_index();
    let start_pos = tokenizer.get_current_file_loc();
    let mut raw_value = String::new();

    let length: usize = operator.unicode_len();
    let mut k: usize = 0;
    while k < length
        invariant
            tokenizer.wf(),
            content == tokenizer.content(),
            length == operator@.len(),
            k <= length,
            tokenizer.index == start + k,
            start + length <= content.len(),
            *tokenizer == old(tokenizer).advanced(tokenizer.index),
            raw_value@ == content.subrange(start as int, tokenizer.index as int),
        decreases length - k,
    {
        let c = *tokenizer.consume().unwrap();
        push_char(&mut raw_value, c);
        proof {
            assert(raw_value@ =~= content.subrange(start as int, tokenizer.index as int));
        }
        k = k + 1;
    }

    let end = tokenizer.get_current_index();
    let end_pos = tokenizer.get_current_file_loc();
    let value = raw_value.clone();

    Ok(
        Token {
            token_type: TokenType::Operator,
            value: value.clone(),
            raw_value: value,
            range: (start, end),
            loc: FileLocation { start: start_pos, end: end_pos },
        },
    )
}

/// A found operator is non-empty and really occurs at the position.
pub proof fn lemma_spec_find_operator_some(content: Seq<char>, i: int)
    ensures
        spec_find_operator(content, i) matches Some(w) ==> 1 <= w.len() && word_at(content, i, w)
            && i + w.len() <= content.len(),
{
    reveal(spec_find_operator);
    reveal_strlit(">>>=");
    reveal_strlit("**=");
    reveal_strlit("<<=");
    reveal_strlit(">>=");
    reveal_strlit("&&=");
    reveal_strlit("||=");
    reveal_strlit("??=");
    reveal_strlit("===");
    reveal_strlit("!==");
    reveal_strlit(">>>");
    reveal_strlit("+=");
    reveal_strlit("-=");
    reveal_strlit("*=");
    reveal_strlit("/=");
    reveal_strlit("%=");
    reveal_strlit("&=");
    reveal_strlit("^=");
    reveal_strlit("|=");
    reveal_strlit("==");
    reveal_strlit("!=");
    reveal_strlit(">=");
    reveal_strlit("<=");
    reveal_strlit("++");
    reveal_strlit("--");
    reveal_strlit("**");
    reveal_strlit(">>");
    reveal_strlit("&&");
    reveal_strlit("||");
    reveal_strlit("=");
    reveal_strlit(">");
    reveal_strlit("<");
    reveal_strlit("%");
    reveal_strlit("-");
    reveal_strlit("+");
    reveal_strlit("&");
    reveal_strlit("|");
    reveal_strlit("^");
    reveal_strlit("~");
    reveal_strlit("!");
}

/// Truncating the source at `k` does not change what the operator table finds
/// at a position, as long as a find that would reach past `k` counts as
/// absent.
#[verifier::rlimit(100)]
pub proof fn lemma_spec_find_operator_prefix(content: Seq<char>, k: int, i: int)
    requires
        0 <= k <= content.len(),
        spec_find_operator(content, i) matches Some(w) ==> i + w.len() <= k,
    ensures
        spec_find_operator(content.subrange(0, k), i) == spec_find_operator(content, i),
{
    reveal(spec_find_operator);
    reveal_strlit(">>>=");
    reveal_strlit("**=");
    reveal_strlit("<<=");
    reveal_strlit(">>=");
    reveal_strlit("&&=");
    reveal_strlit("||=");
    reveal_strlit("??=");
    reveal_strlit("===");
    reveal_strlit("!==");
    reveal_strlit(">>>");
    reveal_strlit("+=");
    reveal_strlit("-=");
    reveal_strlit("*=");
    reveal_strlit("/=");
    reveal_strlit("%=");
    reveal_strlit("&=");
    reveal_strlit("^=");
    reveal_strlit("|=");
    reveal_strlit("==");
    reveal_strlit("!=");
    reveal_strlit(">=");
    reveal_strlit("<=");
    reveal_strlit("++");
    reveal_strlit("--");
    reveal_strlit("**");
    reveal_strlit(">>");
    reveal_strlit("&&");
    reveal_strlit("||");
    reveal_strlit("=");
    reveal_strlit(">");
    reveal_strlit("<");
    reveal_strlit("%");
    reveal_strlit("-");
    reveal_strlit("+");
    reveal_strlit("&");
    reveal_strlit("|");
    reveal_strlit("^");
    reveal_strlit("~");
    reveal_strlit("!");
    lemma_word_at_prefix(content, k, i, ">>>="@);
    lemma_word_at_prefix(content, k, i, "**="@);
    lemma_word_at_prefix(content, k, i, "<<="@);
    lemma_word_at_prefix(content, k, i, ">>="@);
    lemma_word_at_prefix(content, k, i, "&&="@);
    lemma_word_at_prefix(content, k, i, "||="@);
    lemma_word_at_prefix(content, k, i, "??="@);
    lemma_word_at_prefix(content, k, i, "==="@);
    lemma_word_at_prefix(content, k, i, "!=="@);
    lemma_word_at_prefix(content, k, i, ">>>"@);
    lemma_word_at_prefix(content, k, i, "+="@);
    lemma_word_at_prefix(content, k, i, "-="@);
    lemma_word_at_prefix(content, k, i, "*="@);
    lemma_word_at_prefix(content, k, i, "/="@);
    lemma_word_at_prefix(content, k, i, "%="@);
    lemma_word_at_prefix(content, k, i, "&="@);
    lemma_word_at_prefix(content, k, i, "^="@);
    lemma_word_at_prefix(content, k, i, "|="@);
    lemma_word_at_prefix(content, k, i, "=="@);
    lemma_word_at_prefix(content, k, i, "!="@);
    lemma_word_at_prefix(content, k, i, ">="@);
    lemma_word_at_prefix(content, k, i, "<="@);
    lemma_word_at_prefix(content, k, i, "++"@);
    lemma_word_at_prefix(content, k, i, "--"@);
    lemma_word_at_prefix(content, k, i, "**"@);
    lemma_word_at_prefix(content, k, i, ">>"@);
    lemma_word_at_prefix(content, k, i, "&&"@);
    lemma_word_at_prefix(content, k, i, "||"@);
    lemma_word_at_prefix(content, k, i, "="@);
    lemma_word_at_prefix(content, k, i, ">"@);
    lemma_word_at_prefix(content, k, i, "<"@);
    lemma_word_at_prefix(content, k, i, "%"@);
    lemma_word_at_prefix(content, k, i, "-"@);
    lemma_word_at_prefix(content, k, i, "+"@);
    lemma_word_at_prefix(content, k, i, "&"@);
    lemma_word_at_prefix(content, k, i, "|"@);
    lemma_word_at_prefix(content, k, i, "^"@);
    lemma_word_at_prefix(content, k, i, "~"@);
    lemma_word_at_prefix(content, k, i, "!"@);
}

} // verus!
