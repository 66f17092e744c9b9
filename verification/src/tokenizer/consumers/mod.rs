use vstd::prelude::*;
use vstd::string::StrSliceExecFns;

use super::tokenizer::Tokenizer;
use super::{FileLocation, Token};

pub mod boolean;
pub mod comments;
pub mod curly_brace;
pub mod eol;
pub mod identifier;
pub mod keywords;
pub mod null;
pub mod number;
pub mod operator;
pub mod parenthesis;
pub mod separator;
pub mod string;
pub mod terminator;
pub mod whitespace;

verus! {


/// Truncating the source at `k` does not change whether a non-empty word
/// occurs at a position, as long as occurrences that would reach past `k`
/// count as absent.
pub proof fn lemma_word_at_prefix(content: Seq<char>, k: int, i: int, w: Seq<char>)
    requires
        0 <= k <= content.len(),
        w.len() >= 1,
    ensures
        word_at(content.subrange(0, k), i, w) == (i + w.len() <= k && word_at(content, i, w)),
{
    let prefix = content.subrange(0, k);
    if i + w.len() <= k && word_at(content, i, w) {
        assert(prefix.subrange(i, i + w.len()) =~= content.subrange(i, i + w.len()));
    }
    if word_at(prefix, i, w) {
        assert(prefix.subrange(i, i + w.len()) =~= content.subrange(i, i + w.len()));
    }
}

/// Relies on `String::push`: it appends exactly the given character.
#[verifier::external_body]
pub(crate) fn push_char(s: &mut String, c: char)
    ensures
        final(s)@ == old(s)@.push(c),
{
    s.push(c);
}

/// The relation between the cursor before and after one successful
/// extraction and the token it produced: the token covers exactly the
/// consumed slice and carries the line/column span of the move.
pub open spec fn consumed_token(
    content: Seq<char>,
    before: Tokenizer,
    after: Tokenizer,
    t: Token,
) -> bool {
    &&& t.range.0 == before.index
    &&& t.range.1 == after.index
    &&& before.index < after.index <= content.len()
    &&& t.raw_value@ == content.subrange(before.index as int, after.index as int)
    &&& t.loc == FileLocation { start: before.cur_loc(), end: after.cur_loc() }
}

/// `w` occurs character for character at position `index` of `content`.
/// An empty `w` occurs everywhere.
pub open spec fn word_at(content: Seq<char>, index: int, w: Seq<char>) -> bool {
    w.len() == 0 || (0 <= index && index + w.len() <= content.len() && content.subrange(
        index,
        index + w.len(),
    ) == w)
}

/// Compares the characters ahead of the cursor with `word`, without moving.
pub fn is_word(tokenizer: &Tokenizer, word: &str) -> (r: bool)
    requires
        tokenizer.wf(),
    ensures
        r == word_at(tokenizer.content(), tokenizer.index as int, word@),
{
    let ghost content = tokenizer.content();
    let ghost start = tokenizer.index as int;
    let n: usize = word.unicode_len();
    let mut index: usize = 0;

    while index < n
        invariant
            tokenizer.wf(),
            content == tokenizer.content(),
            start == tokenizer.index as int,
            n == word@.len(),
            index <= n,
            index > 0 ==> start + index <= content.len() && content.subrange(start, start + index)
                == word@.subrange(0, index as int),
        decreases n - index,
    {
        let token_char = tokenizer.peek_forward(index);
        let word_char = word.get_char(index);

        match token_char {
            None => {
                proof {
                    assert(start + n > content.len());
                }
                return false;
            },
            Some(c) => {
                if *c != word_char {
                    proof {
                        assert(!word_at(content, start, word@)) by {
                            if word_at(content, start, word@) {
                                assert(content.subrange(start, start + n)[index as int]
                                    == word@[index as int]);
                            }
                        }
                    }
                    return false;
                }
            },
        }
        proof {
            assert(content.subrange(start, start + index + 1) =~= word@.subrange(
                0,
                index + 1,
            )) by {
                assert forall|j: int| 0 <= j < index + 1 implies #[trigger] content.subrange(
                    start,
                    start + index + 1,
                )[j] == word@.subrange(0, index + 1)[j] by {
                    if j < index {
                        assert(content.subrange(start, start + index)[j] == word@.subrange(
                            0,
                            index as int,
                        )[j]);
                    }
                }
            }
        }
        index = index + 1;
    }

    proof {
        if n > 0 {
            assert(content.subrange(start, start + n) =~= word@.subrange(0, n as int));
            assert(word@.subrange(0, n as int) =~= word@);
        }
    }
    true
}

} // verus!
