use vstd::prelude::*;

use crate::tokenizer::tokenizer::Tokenizer;
use crate::tokenizer::util::{eol_char, is_eol};

verus! {

/// The position of the first line break at or after `j`, or the end of the
/// source if there is none.
pub open spec fn scan_to_eol(content: Seq<char>, j: int) -> int
    decreases content.len() - j,
{
    if j < 0 || j >= content.len() {
        content.len() as int
    } else if eol_char(content[j]) {
        j
    } else {
        scan_to_eol(content, j + 1)
    }
}

/// The position of the first `*/` at or after `j`, or the end of the source
/// if there is none.
pub open spec fn scan_to_block_end(content: Seq<char>, j: int) -> int
    decreases content.len() - j,
{
    if j < 0 || j >= content.len() {
        content.len() as int
    } else if content[j] == '*' && j + 1 < content.len() && content[j + 1] == '/' {
        j
    } else {
        scan_to_block_end(content, j + 1)
    }
}

pub proof fn lemma_scan_to_eol_bounds(content: Seq<char>, j: int)
    requires
        0 <= j <= content.len(),
    ensures
        j <= scan_to_eol(content, j) <= content.len(),
    decreases content.len() - j,
{
    if j < content.len() && !eol_char(content[j]) {
        lemma_scan_to_eol_bounds(content, j + 1);
    }
}

pub proof fn lemma_scan_to_block_end_bounds(content: Seq<char>, j: int)
    requires
        0 <= j <= content.len(),
    ensures
        j <= scan_to_block_end(content, j) <= content.len(),
        scan_to_block_end(content, j) < content.len() ==> scan_to_block_end(content, j) + 2
            <= content.len(),
    decreases content.len() - j,
{
    if j < content.len() && !(content[j] == '*' && j + 1 < content.len() && content[j + 1] == '/') {
        lemma_scan_to_block_end_bounds(content, j + 1);
    }
}

/// Where the cursor lands after consuming a line comment that starts at `i`:
/// past the terminating line break, or at the end of the input.
pub open spec fn line_comment_stop(content: Seq<char>, i: int) -> int {
    if scan_to_eol(content, i) < content.len() {
        scan_to_eol(content, i) + 1
    } else {
        content.len() as int
    }
}

/// Where the cursor lands after consuming a block comment that starts at `i`:
/// past the closing `*/`, or at the end of the input when the comment is
/// unterminated (not an error, by policy).
pub open spec fn block_comment_stop(content: Seq<char>, i: int) -> int {
    if scan_to_block_end(content, i) < content.len() {
        scan_to_block_end(content, i) + 2
    } else {
        content.len() as int
    }
}

fn is_start_line_comment(tokenizer: &Tokenizer) -> (r: bool)
    requires
        tokenizer.wf(),
        tokenizer.index < tokenizer.content().len(),
    ensures
        r == (tokenizer.content()[tokenizer.index as int] == '/' && tokenizer.index + 1
            < tokenizer.content().len() && tokenizer.content()[tokenizer.index + 1] == '/'),
{
    let first = *tokenizer.token().unwrap();
    let second = match tokenizer.peek() {
        Some(c) => *c,
        None => ' ',
    };

    first == '/' && second == '/'
}

fn is_end_line_comment(tokenizer: &Tokenizer) -> (r: bool)
    requires
        tokenizer.wf(),
    ensures
        r == (tokenizer.index < tokenizer.content().len() && eol_char(
            tokenizer.content()[tokenizer.index as int],
        )),
{
    let token = match tokenizer.token() {
        Some(c) => *c,
        None => ' ',
    };

    is_eol(&token)
}

pub fn is_line_comment(tokenizer: &Tokenizer) -> (r: bool)
    requires
        tokenizer.wf(),
        tokenizer.index < tokenizer.content().len(),
    ensures
        r == (tokenizer.content()[tokenizer.index as int] == '/' && tokenizer.index + 1
            < tokenizer.content().len() && tokenizer.content()[tokenizer.index + 1] == '/'),
{
    is_start_line_comment(tokenizer)
}

/// Consumes a `//` comment up to and including the line break that ends it
/// (or to the end of the input). Does nothing when no line comment starts
/// here. The consumed line break is not recorded in the line bookkeeping.
pub fn consume_line_comment(tokenizer: &mut Tokenizer)
    requires
        old(tokenizer).wf(),
        old(tokenizer).index < old(tokenizer).content().len(),
    ensures
        final(tokenizer).wf(),
        if old(tokenizer).content()[old(tokenizer).index as int] == '/' && old(tokenizer).index + 1
            < old(tokenizer).content().len() && old(tokenizer).content()[old(tokenizer).index + 1]
            == '/' {
            *final(tokenizer) == old(tokenizer).advanced(
                line_comment_stop(old(tokenizer).content(), old(tokenizer).index as int) as usize,
            )
        } else {
            *final(tokenizer) == *old(tokenizer)
        },
{
    if !is_start_line_comment(tokenizer) {
        return ;
    }

    let ghost content = tokenizer.content();
    let ghost start = tokenizer.index as int;

    let mut consumed = tokenizer.token();

    while consumed.is_some() && !is_end_line_comment(tokenizer)
        invariant
            tokenizer.wf(),
            content == tokenizer.content(),
            start <= tokenizer.index <= content.len(),
            *tokenizer == old(tokenizer).advanced(tokenizer.index),
            scan_to_eol(content, start) == scan_to_eol(content, tokenizer.index as int),
            consumed matches Some(c) ==> tokenizer.index < content.len() && *c
                == content[tokenizer.index as int],
            consumed is None ==> tokenizer.index >= content.len(),
        decreases content.len() - tokenizer.index,
    {
        tokenizer.next();
        consumed = tokenizer.token();
    }

    if is_end_line_comment(tokenizer) {
        tokenizer.next();  // move past the line break
    }
}

fn is_start_block_comment(tokenizer: &Tokenizer) -> (r: bool)
    requires
        tokenizer.wf(),
        tokenizer.index < tokenizer.content().len(),
    ensures
        r == (tokenizer.content()[tokenizer.index as int] == '/' && tokenizer.index + 1
            < tokenizer.content().len() && tokenizer.content()[tokenizer.index + 1] == '*'),
{
    let first = *tokenizer.token().unwrap();
    let second = match tokenizer.peek() {
        Some(c) => *c,
        None => ' ',
    };

    first == '/' && second == '*'
}

fn is_end_block_comment(tokenizer: &Tokenizer) -> (r: bool)
    requires
        tokenizer.wf(),
    ensures
        r == (tokenizer.index < tokenizer.content().len()
            && tokenizer.content()[tokenizer.index as int] == '*' && tokenizer.index + 1
            < tokenizer.content().len() && tokenizer.content()[tokenizer.index + 1] == '/'),
{
    let first = match tokenizer.token() {
        Some(c) => *c,
        None => ' ',
    };
    let second = match tokenizer.peek() {
        Some(c) => *c,
        None => ' ',
    };

    first == '*' && second == '/'
}

pub fn is_block_comment(tokenizer: &Tokenizer) -> (r: bool)
    requires
        tokenizer.wf(),
        tokenizer.index < tokenizer.content().len(),
    ensures
        r == (tokenizer.content()[tokenizer.index as int] == '/' && tokenizer.index + 1
            < tokenizer.content().len() && tokenizer.content()[tokenizer.index + 1] == '*'),
{
    is_start_block_comment(tokenizer)
}

/// Consumes a `/* ... */` comment including the closing marker; an
/// unterminated block comment is consumed to the end of the input. Does
/// nothing when no block comment starts here.
pub fn consume_block_comment(tokenizer: &mut Tokenizer)
    requires
        old(tokenizer).wf(),
        old(tokenizer).index < old(tokenizer).content().len(),
    ensures
        final(tokenizer).wf(),
        if old(tokenizer).content()[old(tokenizer).index as int] == '/' && old(tokenizer).index + 1
            < old(tokenizer).content().len() && old(tokenizer).content()[old(tokenizer).index + 1]
            == '*' {
            *final(tokenizer) == old(tokenizer).advanced(
                block_comment_stop(old(tokenizer).content(), old(tokenizer).index as int) as usize,
            )
        } else {
            *final(tokenizer) == *old(tokenizer)
        },
{
    if !is_start_block_comment(tokenizer) {
        return ;
    }

    let ghost content = tokenizer.content();
    let ghost start = tokenizer.index as int;

    let mut consumed = tokenizer.token();

    while consumed.is_some() && !is_end_block_comment(tokenizer)
        invariant
            tokenizer.wf(),
            content == tokenizer.content(),
            start <= tokenizer.index <= content.len(),
            *tokenizer == old(tokenizer).advanced(tokenizer.index),
            scan_to_block_end(content, start) == scan_to_block_end(content, tokenizer.index as int),
            consumed matches Some(c) ==> tokenizer.index < content.len() && *c
                == content[tokenizer.index as int],
            consumed is None ==> tokenizer.index >= content.len(),
        decreases content.len() - tokenizer.index,
    {
        tokenizer.next();
        consumed = tokenizer.token();
    }

    if is_end_block_comment(tokenizer) {
        tokenizer.next();  // move past the closing *
        tokenizer.next();  // move past the closing /
    }
}

/// Truncating the source at `k` does not move a line-break scan that ends
/// strictly before `k`, nor one that runs to the end of a source that is not
/// truncated at all.
pub proof fn lemma_scan_to_eol_prefix(content: Seq<char>, k: int, j: int)
    requires
        0 <= j <= k <= content.len(),
        scan_to_eol(content, j) < k || (scan_to_eol(content, j) == k && (k == content.len()
            || eol_char(content[k]))),
    ensures
        scan_to_eol(content.subrange(0, k), j) == scan_to_eol(content, j),
    decreases k - j,
{
    lemma_scan_to_eol_bounds(content, j);
    let prefix = content.subrange(0, k);
    if k == content.len() {
        assert(prefix =~= content);
    } else if j < k {
        if !eol_char(content[j]) {
            lemma_scan_to_eol_prefix(content, k, j + 1);
        }
    }
}

/// Truncating the source at `k` does not move a block-end scan whose marker
/// ends at or before `k`.
pub proof fn lemma_scan_to_block_end_prefix(content: Seq<char>, k: int, j: int)
    requires
        0 <= j <= k <= content.len(),
        scan_to_block_end(content, j) + 2 <= k || (scan_to_block_end(content, j) == content.len()
            && k == content.len()),
    ensures
        scan_to_block_end(content.subrange(0, k), j) == scan_to_block_end(content, j),
    decreases k - j,
{
    lemma_scan_to_block_end_bounds(content, j);
    let prefix = content.subrange(0, k);
    if k == content.len() {
        assert(prefix =~= content);
    } else if j < k {
        if !(content[j] == '*' && j + 1 < content.len() && content[j + 1] == '/') {
            lemma_scan_to_block_end_prefix(content, k, j + 1);
        }
    }
}

} // verus!
