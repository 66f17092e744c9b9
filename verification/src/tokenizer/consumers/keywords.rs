use vstd::prelude::*;
use vstd::string::StrSliceExecFns;

use crate::tokenizer::consumers::{consumed_token, is_word, lemma_word_at_prefix, push_char, word_at};
use crate::tokenizer::tokenizer::Tokenizer;
use crate::tokenizer::{FileLocation, Token, TokenErrorType, TokenType, TokenizeError};

verus! {

/// Membership in the closed keyword vocabulary.
pub open spec fn is_keyword_text(w: Seq<char>) -> bool {
    ||| w == "break"@
    ||| w == "do"@
    ||| w == "instanceof"@
    ||| w == "typeof"@
    ||| w == "case"@
    ||| w == "else"@
    ||| w == "new"@
    ||| w == "var"@
    ||| w == "catch"@
    ||| w == "finally"@
    ||| w == "return"@
    ||| w == "void"@
    ||| w == "continue"@
    ||| w == "for"@
    ||| w == "switch"@
    ||| w == "while"@
    ||| w == "debugger"@
    ||| w == "function"@
    ||| w == "this"@
    ||| w == "with"@
    ||| w == "default"@
    ||| w == "if"@
    ||| w == "throw"@
    ||| w == "delete"@
    ||| w == "in"@
    ||| w == "try"@
}

/// The first keyword of the vocabulary, in its fixed priority order, that
/// occurs at position `i` of `content`; none when no keyword does.
#[verifier::opaque]
pub open spec fn spec_find_keyword(content: Seq<char>, i: int) -> Option<Seq<char>> {
    if word_at(content, i, "break"@) {
        Some("break"@)
    } else if word_at(content, i, "do"@) {
        Some("do"@)
    } else if word_at(content, i, "instanceof"@) {
        Some("instanceof"@)
    } else if word_at(content, i, "typeof"@) {
        Some("typeof"@)
    } else if word_at(content, i, "case"@) {
        Some("case"@)
    } else if word_at(content, i, "else"@) {
        Some("else"@)
    } else if word_at(content, i, "new"@) {
        Some("new"@)
    } else if word_at(content, i, "var"@) {
        Some("var"@)
    } else if word_at(content, i, "catch"@) {
        Some("catch"@)
    } else if word_at(content, i, "finally"@) {
        Some("finally"@)
    } else if word_at(content, i, "return"@) {
        Some("return"@)
    } else if word_at(content, i, "void"@) {
        Some("void"@)
    } else if word_at(content, i, "continue"@) {
        Some("continue"@)
    } else if word_at(content, i, "for"@) {
        Some("for"@)
    } else if word_at(content, i, "switch"@) {
        Some("switch"@)
    } else if word_at(content, i, "while"@) {
        Some("while"@)
    } else if word_at(content, i, "debugger"@) {
        Some("debugger"@)
    } else if word_at(content, i, "function"@) {
        Some("function"@)
    } else if word_at(content, i, "this"@) {
        Some("this"@)
    } else if word_at(content, i, "with"@) {
        Some("with"@)
    } else if word_at(content, i, "default"@) {
        Some("default"@)
    } else if word_at(content, i, "if"@) {
        Some("if"@)
    } else if word_at(content, i, "throw"@) {
        Some("throw"@)
    } else if word_at(content, i, "delete"@) {
        Some("delete"@)
    } else if word_at(content, i, "in"@) {
        Some("in"@)
    } else if word_at(content, i, "try"@) {
        Some("try"@)
    } else {
        None
    }
}

pub fn is_keyword(tokenizer: &Tokenizer, keyword: &str) -> (r: bool)
    requires
        tokenizer.wf(),
    ensures
        r == word_at(tokenizer.content(), tokenizer.index as int, keyword@),
{
    is_word(tokenizer, keyword)
}

/// Tries every keyword of the vocabulary in priority order and returns the
/// first that occurs at the cursor.
pub fn find_keyword(tokenizer: &Tokenizer) -> (r: Result<&'static str, ()>)
    requires
        tokenizer.wf(),
    ensures
        r matches Ok(w) ==> spec_find_keyword(tokenizer.content(), tokenizer.index as int)
            == Some(w@) && word_at(tokenizer.content(), tokenizer.index as int, w@) && w@.len() >= 1
            && is_keyword_text(w@),
        r is Err ==> spec_find_keyword(tokenizer.content(), tokenizer.index as int) is None,
{
    proof {
        reveal(spec_find_keyword);
        reveal_strlit("break");
        reveal_strlit("do");
        reveal_strlit("instanceof");
        reveal_strlit("typeof");
        reveal_strlit("case");
        reveal_strlit("else");
        reveal_strlit("new");
        reveal_strlit("var");
        reveal_strlit("catch");
        reveal_strlit("finally");
        reveal_strlit("return");
        reveal_strlit("void");
        reveal_strlit("continue");
        reveal_strlit("for");
        reveal_strlit("switch");
        reveal_strlit("while");
        reveal_strlit("debugger");
        reveal_strlit("function");
        reveal_strlit("this");
        reveal_strlit("with");
        reveal_strlit("default");
        reveal_strlit("if");
        reveal_strlit("throw");
        reveal_strlit("delete");
        reveal_strlit("in");
        reveal_strlit("try");
    }
    if is_word(tokenizer, "break") {
        return Ok("break");
    }
    if is_word(tokenizer, "do") {
        return Ok("do");
    }
    if is_word(tokenizer, "instanceof") {
        return Ok("instanceof");
    }
    if is_word(tokenizer, "typeof") {
        return Ok("typeof");
    }
    if is_word(tokenizer, "case") {
        return Ok("case");
    }
    if is_word(tokenizer, "else") {
        return Ok("else");
    }
    if is_word(tokenizer, "new") {
        return Ok("new");
    }
    if is_word(tokenizer, "var") {
        return Ok("var");
    }
    if is_word(tokenizer, "catch") {
        return Ok("catch");
    }
    if is_word(tokenizer, "finally") {
        return Ok("finally");
    }
    if is_word(tokenizer, "return") {
        return Ok("return");
    }
    if is_word(tokenizer, "void") {
        return Ok("void");
    }
    if is_word(tokenizer, "continue") {
        return Ok("continue");
    }
    if is_word(tokenizer, "for") {
        return Ok("for");
    }
    if is_word(tokenizer, "switch") {
        return Ok("switch");
    }
    if is_word(tokenizer, "while") {
        return Ok("while");
    }
    if is_word(tokenizer, "debugger") {
        return Ok("debugger");
    }
    if is_word(tokenizer, "function") {
        return Ok("function");
    }
    if is_word(tokenizer, "this") {
        return Ok("this");
    }
    if is_word(tokenizer, "with") {
        return Ok("with");
    }
    if is_word(tokenizer, "default") {
        return Ok("default");
    }
    if is_word(tokenizer, "if") {
        return Ok("if");
    }
    if is_word(tokenizer, "throw") {
        return Ok("throw");
    }
    if is_word(tokenizer, "delete") {
        return Ok("delete");
    }
    if is_word(tokenizer, "in") {
        return Ok("in");
    }
    if is_word(tokenizer, "try") {
        return Ok("try");
    }

    return Err(());
}

/// Consumes the given keyword (which must occur at the cursor) as a keyword
/// token, or reports the offending index.
pub fn consume_keyword(tokenizer: &mut Tokenizer, keyword: &str) -> (r: Result<
    Token,
    TokenizeError,
>)
    requires
        old(tokenizer).wf(),
        keyword@.len() >= 1,
    ensures
        final(tokenizer).wf(),
        final(tokenizer).content() == old(tokenizer).content(),
        if word_at(old(tokenizer).content(), old(tokenizer).index as int, keyword@) {
            &&& *final(tokenizer) == old(tokenizer).advanced(
                (old(tokenizer).index + keyword@.len()) as usize,
            )
            &&& r matches Ok(t) && consumed_token(
                old(tokenizer).content(),
                *old(tokenizer),
                *final(tokenizer),
                t,
            ) && t.token_type == TokenType::Keyword && t.value@ == t.raw_value@ && t.raw_value@
                == keyword@
        } else {
            &&& r matches Err(e) && e.error_type == TokenErrorType::UnexpectedToken && e.index
                == old(tokenizer).index
            &&& *final(tokenizer) == *old(tokenizer)
        },
{
    if !is_keyword(tokenizer, keyword) {
        return Err(
            TokenizeError {
                error_type: TokenErrorType::UnexpectedToken,
                index: tokenizer.get_current_index(),
            },
        );
    }

    let ghost content = tokenizer.content();

    let start = tokenizer.get_current_index();
    let start_pos = tokenizer.get_current_file_loc();
    let mut raw_value = String::new();

    let length: usize = keyword.unicode_len();
    let mut k: usize = 0;
    while k < length
        invariant
            tokenizer.wf(),
            content == tokenizer.content(),
            length == keyword@.len(),
            k <= length,
            tokenizer.index == start + k,
            start + length <= content.len(),
            *tokenizer == old(tokenizer).advanced(tokenizer.index),
            raw_value@ == content.subrange(start as int, tokenizer.index as int),
        decreases length - k,
    {
        let c = *tokenizer.consume().unwrap();
        push_char(&mut raw_value, c);
        proof {
            assert(raw_value@ =~= content.subrange(start as int, tokenizer.index as int));
        }
        k = k + 1;
    }

    let end = tokenizer.get_current_index();
    let end_pos = tokenizer.get_current_file_loc();
    let value = raw_value.clone();

    Ok(
        Token {
            token_type: TokenType::Keyword,
            value,
            raw_value,
            range: (start, end),
            loc: FileLocation { start: start_pos, end: end_pos },
        },
    )
}

/// A found keyword is non-empty and really occurs at the position.
pub proof fn lemma_spec_find_keyword_some(content: Seq<char>, i: int)
    ensures
        spec_find_keyword(content, i) matches Some(w) ==> 1 <= w.len() && word_at(content, i, w)
            && i + w.len() <= content.len(),
{
    reveal(spec_find_keyword);
    reveal_strlit("break");
    reveal_strlit("do");
    reveal_strlit("instanceof");
    reveal_strlit("typeof");
    reveal_strlit("case");
    reveal_strlit("else");
    reveal_strlit("new");
    reveal_strlit("var");
    reveal_strlit("catch");
    reveal_strlit("finally");
    reveal_strlit("return");
    reveal_strlit("void");
    reveal_strlit("continue");
    reveal_strlit("for");
    reveal_strlit("switch");
    reveal_strlit("while");
    reveal_strlit("debugger");
    reveal_strlit("function");
    reveal_strlit("this");
    reveal_strlit("with");
    reveal_strlit("default");
    reveal_strlit("if");
    reveal_strlit("throw");
    reveal_strlit("delete");
    reveal_strlit("in");
    reveal_strlit("try");
}

/// Truncating the source at `k` does not change what the keyword table finds
/// at a position, as long as a find that would reach past `k` counts as
/// absent.
#[verifier::rlimit(100)]
pub proof fn lemma_spec_find_keyword_prefix(content: Seq<char>, k: int, i: int)
    requires
        0 <= k <= content.len(),
        spec_find_keyword(content, i) matches Some(w) ==> i + w.len() <= k,
    ensures
        spec_find_keyword(content.subrange(0, k), i) == spec_find_keyword(content, i),
{
    reveal(spec_find_keyword);
    reveal_strlit("break");
    reveal_strlit("do");
    reveal_strlit("instanceof");
    reveal_strlit("typeof");
    reveal_strlit("case");
    reveal_strlit("else");
    reveal_strlit("new");
    reveal_strlit("var");
    reveal_strlit("catch");
    reveal_strlit("finally");
    reveal_strlit("return");
    reveal_strlit("void");
    reveal_strlit("continue");
    reveal_strlit("for");
    reveal_strlit("switch");
    reveal_strlit("while");
    reveal_strlit("debugger");
    reveal_strlit("function");
    reveal_strlit("this");
    reveal_strlit("with");
    reveal_strlit("default");
    reveal_strlit("if");
    reveal_strlit("throw");
    reveal_strlit("delete");
    reveal_strlit("in");
    reveal_strlit("try");
    lemma_word_at_prefix(content, k, i, "break"@);
    lemma_word_at_prefix(content, k, i, "do"@);
    lemma_word_at_prefix(content, k, i, "instanceof"@);
    lemma_word_at_prefix(content, k, i, "typeof"@);
    lemma_word_at_prefix(content, k, i, "case"@);
    lemma_word_at_prefix(content, k, i, "else"@);
    lemma_word_at_prefix(content, k, i, "new"@);
    lemma_word_at_prefix(content, k, i, "var"@);
    lemma_word_at_prefix(content, k, i, "catch"@);
    lemma_word_at_prefix(content, k, i, "finally"@);
    lemma_word_at_prefix(content, k, i, "return"@);
    lemma_word_at_prefix(content, k, i, "void"@);
    lemma_word_at_prefix(content, k, i, "continue"@);
    lemma_word_at_prefix(content, k, i, "for"@);
    lemma_word_at_prefix(content, k, i, "switch"@);
    lemma_word_at_prefix(content, k, i, "while"@);
    lemma_word_at_prefix(content, k, i, "debugger"@);
    lemma_word_at_prefix(content, k, i, "function"@);
    lemma_word_at_prefix(content, k, i, "this"@);
    lemma_word_at_prefix(content, k, i, "with"@);
    lemma_word_at_prefix(content, k, i, "default"@);
    lemma_word_at_prefix(content, k, i, "if"@);
    lemma_word_at_prefix(content, k, i, "throw"@);
    lemma_word_at_prefix(content, k, i, "delete"@);
    lemma_word_at_prefix(content, k, i, "in"@);
    lemma_word_at_prefix(content, k, i, "try"@);
}

} // verus!
