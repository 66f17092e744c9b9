use vstd::prelude::*;

use crate::tokenizer::consumers::comments::{
    block_comment_stop, lemma_scan_to_block_end_bounds, lemma_scan_to_eol_bounds,
    line_comment_stop, scan_to_block_end, scan_to_eol,
};
use crate::tokenizer::consumers::identifier::{lemma_scan_identifier_bounds, scan_identifier};
use crate::tokenizer::consumers::keywords::spec_find_keyword;
use crate::tokenizer::consumers::number::{lemma_scan_number_bounds, scan_number};
use crate::tokenizer::consumers::operator::spec_find_operator;
use crate::tokenizer::consumers::string::{
    lemma_scan_string_bounds, scan_string, string_payload,
};
use crate::tokenizer::consumers::word_at;
use crate::tokenizer::tokenizer::Tokenizer;
use crate::tokenizer::util::{
    eol_char, identifier_char, number_char, string_delimiter_char, whitespace_char,
};
use crate::tokenizer::{
    FileLocation, FileLocationPos, Literal, Separator, Token, TokenErrorType, TokenType,
};

verus! {

/// The state the tokenizer driver threads through its dispatch loop: the
/// cursor index and the line bookkeeping.
pub ghost struct LexState {
    pub i: int,
    pub eol_count: int,
    pub eol_index: int,
}

/// The mathematical image of one token: every field of `Token`, with the
/// strings as character sequences.
pub ghost struct TokenModel {
    pub token_type: TokenType,
    pub value: Seq<char>,
    pub raw_value: Seq<char>,
    pub range_start: int,
    pub range_end: int,
    pub loc: FileLocation,
}

/// How tokenization fails: which error, and at which index.
pub ghost struct LexFail {
    pub kind: TokenErrorType,
    pub at: int,
}

/// What one dispatch step does: moves to a new state, possibly emitting a
/// token, or fails.
pub ghost enum LexOutcome {
    Next { st: LexState, emitted: Option<TokenModel> },
    Fail { kind: TokenErrorType, at: int },
}

/// The state the driver starts from.
pub open spec fn init_lex_state() -> LexState {
    LexState { i: 0, eol_count: 0, eol_index: 0 }
}

/// The lexer state that a cursor is in.
pub open spec fn lex_state_of(t: Tokenizer) -> LexState {
    LexState { i: t.index as int, eol_count: t.eol_count as int, eol_index: t.eol_index as int }
}

/// The line/column position of a lexer state.
pub open spec fn loc_of(st: LexState) -> FileLocationPos {
    FileLocationPos { line: (st.eol_count + 1) as usize, column: (st.i - st.eol_index) as usize }
}

/// A token emitted between positions `st.i` and `end`, whose raw text is the
/// covered slice.
pub open spec fn model_at(
    content: Seq<char>,
    st: LexState,
    end: int,
    kind: TokenType,
    value: Seq<char>,
) -> TokenModel {
    TokenModel {
        token_type: kind,
        value,
        raw_value: content.subrange(st.i, end),
        range_start: st.i,
        range_end: end,
        loc: FileLocation { start: loc_of(st), end: loc_of(LexState { i: end, ..st }) },
    }
}

/// A step that skips to position `j` without emitting.
pub open spec fn step_skip_to(st: LexState, j: int) -> LexOutcome {
    LexOutcome::Next { st: LexState { i: j, ..st }, emitted: None }
}

/// A step over a line break: one position forward, and the line bookkeeping
/// records the new line start.
pub open spec fn step_newline(st: LexState) -> LexOutcome {
    LexOutcome::Next {
        st: LexState { i: st.i + 1, eol_count: st.eol_count + 1, eol_index: st.i + 1 },
        emitted: None,
    }
}

/// A step that emits the token covering `[st.i, end)`.
pub open spec fn step_emit(
    content: Seq<char>,
    st: LexState,
    end: int,
    kind: TokenType,
    value: Seq<char>,
) -> LexOutcome {
    LexOutcome::Next {
        st: LexState { i: end, ..st },
        emitted: Some(model_at(content, st, end, kind, value)),
    }
}

/// One step of the tokenizer driver at state `st`: the classifiers are asked
/// in their fixed priority order and the first match decides. This is the
/// dispatch of `tokenizer::parse`, written as a function of the source text
/// alone.
#[verifier::opaque]
pub open spec fn spec_step(content: Seq<char>, st: LexState) -> LexOutcome {
    let i = st.i;
    if i < 0 || i >= content.len() {
        LexOutcome::Fail { kind: TokenErrorType::UnexpectedToken, at: i }
    } else if eol_char(content[i]) {
        step_newline(st)
    } else if whitespace_char(content[i]) {
        step_skip_to(st, i + 1)
    } else if content[i] == '/' && i + 1 < content.len() && content[i + 1] == '/' {
        step_skip_to(st, line_comment_stop(content, i))
    } else if content[i] == '/' && i + 1 < content.len() && content[i + 1] == '*' {
        step_skip_to(st, block_comment_stop(content, i))
    } else if spec_find_keyword(content, i) is Some {
        let w = spec_find_keyword(content, i).unwrap();
        step_emit(content, st, i + w.len(), TokenType::Keyword, w)
    } else if word_at(content, i, "true"@) {
        step_emit(content, st, i + "true"@.len(), TokenType::Literal(Literal::Boolean), "true"@)
    } else if word_at(content, i, "false"@) {
        step_emit(content, st, i + "false"@.len(), TokenType::Literal(Literal::Boolean), "false"@)
    } else if word_at(content, i, "null"@) {
        step_emit(
            content,
            st,
            i + "null"@.len(),
            TokenType::Literal(Literal::Null),
            Seq::<char>::empty(),
        )
    } else if content[i] == ';' {
        step_emit(
            content,
            st,
            i + 1,
            TokenType::Separator(Separator::Terminator),
            content.subrange(i, i + 1),
        )
    } else if content[i] == '.' {
        step_emit(
            content,
            st,
            i + 1,
            TokenType::Separator(Separator::Period),
            content.subrange(i, i + 1),
        )
    } else if content[i] == ',' {
        step_emit(
            content,
            st,
            i + 1,
            TokenType::Separator(Separator::Comma),
            content.subrange(i, i + 1),
        )
    } else if content[i] == '(' || content[i] == ')' {
        step_emit(
            content,
            st,
            i + 1,
            TokenType::Separator(Separator::Parenthesis),
            content.subrange(i, i + 1),
        )
    } else if content[i] == '{' || content[i] == '}' {
        step_emit(
            content,
            st,
            i + 1,
            TokenType::Separator(Separator::CurlyBrace),
            content.subrange(i, i + 1),
        )
    } else if number_char(content[i]) {
        step_emit(
            content,
            st,
            scan_number(content, i),
            TokenType::Literal(Literal::Number),
            content.subrange(i, scan_number(content, i)),
        )
    } else if identifier_char(content[i]) {
        step_emit(
            content,
            st,
            scan_identifier(content, i),
            TokenType::Identifier,
            content.subrange(i, scan_identifier(content, i)),
        )
    } else if string_delimiter_char(content[i]) {
        match scan_string(content, content[i], i + 1) {
            Ok(e) => step_emit(
                content,
                st,
                e + 1,
                TokenType::Literal(Literal::String),
                string_payload(content, i + 1, e),
            ),
            Err(p) => LexOutcome::Fail { kind: TokenErrorType::UnterminatedStringLiteral, at: p },
        }
    } else if spec_find_operator(content, i) is Some {
        let w = spec_find_operator(content, i).unwrap();
        step_emit(content, st, i + w.len(), TokenType::Operator, w)
    } else {
        LexOutcome::Fail { kind: TokenErrorType::UnexpectedToken, at: i }
    }
}

/// The whole tokenization from state `st` on: the sequence of tokens the
/// driver emits, or the first failure.
pub open spec fn spec_tokenize(content: Seq<char>, st: LexState) -> Result<Seq<TokenModel>, LexFail>
    decreases content.len() - st.i
        via spec_tokenize_decreases
{
    if st.i < 0 || st.i >= content.len() {
        Ok(Seq::empty())
    } else {
        match spec_step(content, st) {
            LexOutcome::Fail { kind, at } => Err(LexFail { kind, at }),
            LexOutcome::Next { st: st2, emitted } => match spec_tokenize(content, st2) {
                Err(f) => Err(f),
                Ok(rest) => Ok(
                    match emitted {
                        Some(m) => seq![m] + rest,
                        None => rest,
                    },
                ),
            },
        }
    }
}

/// Every successful step moves forward, so the recursion above is finite.
pub proof fn lemma_spec_step_advances(content: Seq<char>, st: LexState)
    requires
        0 <= st.i < content.len(),
    ensures
        spec_step(content, st) matches LexOutcome::Next { st: st2, .. } ==> st.i < st2.i
            <= content.len(),
{
    reveal(spec_step);
    let i = st.i;
    if eol_char(content[i]) || whitespace_char(content[i]) {
    } else if content[i] == '/' && i + 1 < content.len() && content[i + 1] == '/' {
        lemma_scan_to_eol_bounds(content, i);
    } else if content[i] == '/' && i + 1 < content.len() && content[i + 1] == '*' {
        lemma_scan_to_block_end_bounds(content, i);
    } else if spec_find_keyword(content, i) is Some {
        crate::tokenizer::consumers::keywords::lemma_spec_find_keyword_some(content, i);
    } else if word_at(content, i, "true"@) || word_at(content, i, "false"@) || word_at(
        content,
        i,
        "null"@,
    ) {
        reveal_strlit("true");
        reveal_strlit("false");
        reveal_strlit("null");
    } else if number_char(content[i]) {
        lemma_scan_number_bounds(content, i + 1);
    } else if identifier_char(content[i]) {
        lemma_scan_identifier_bounds(content, i + 1);
    } else if string_delimiter_char(content[i]) {
        lemma_scan_string_bounds(content, content[i], i + 1);
    } else if spec_find_operator(content, i) is Some {
        crate::tokenizer::consumers::operator::lemma_spec_find_operator_some(content, i);
    }
}

#[via_fn]
proof fn spec_tokenize_decreases(content: Seq<char>, st: LexState) {
    if !(st.i < 0 || st.i >= content.len()) {
        lemma_spec_step_advances(content, st);
    }
}

/// `ms` prepended to the outcome `r`.
pub open spec fn lex_prepend(
    ms: Seq<TokenModel>,
    r: Result<Seq<TokenModel>, LexFail>,
) -> Result<Seq<TokenModel>, LexFail> {
    match r {
        Ok(rest) => Ok(ms + rest),
        Err(f) => Err(f),
    }
}

/// A concrete token is exactly what its model prescribes, field for field.
pub open spec fn matches_model(t: Token, m: TokenModel) -> bool {
    &&& t.token_type == m.token_type
    &&& t.value@ == m.value
    &&& t.raw_value@ == m.raw_value
    &&& t.range.0 == m.range_start
    &&& t.range.1 == m.range_end
    &&& t.loc == m.loc
}

/// A whole token list is exactly what the model list prescribes.
pub open spec fn matches_models(tokens: Seq<Token>, ms: Seq<TokenModel>) -> bool {
    &&& tokens.len() == ms.len()
    &&& forall|k: int| 0 <= k < ms.len() ==> matches_model(#[trigger] tokens[k], ms[k])
}

/// Law: the tokenizer is deterministic. Any two token lists that tokenizing
/// the same source can produce agree in every observable field of every
/// token.
pub proof fn lemma_tokenize_deterministic(
    tokens_a: Seq<Token>,
    tokens_b: Seq<Token>,
    ms: Seq<TokenModel>,
)
    requires
        matches_models(tokens_a, ms),
        matches_models(tokens_b, ms),
    ensures
        tokens_a.len() == tokens_b.len(),
        forall|k: int|
            0 <= k < tokens_a.len() ==> {
                &&& (#[trigger] tokens_a[k]).token_type == tokens_b[k].token_type
                &&& tokens_a[k].value@ == tokens_b[k].value@
                &&& tokens_a[k].raw_value@ == tokens_b[k].raw_value@
                &&& tokens_a[k].range == tokens_b[k].range
                &&& tokens_a[k].loc == tokens_b[k].loc
            },
{
    assert forall|k: int| 0 <= k < tokens_a.len() implies {
        &&& (#[trigger] tokens_a[k]).token_type == tokens_b[k].token_type
        &&& tokens_a[k].value@ == tokens_b[k].value@
        &&& tokens_a[k].raw_value@ == tokens_b[k].raw_value@
        &&& tokens_a[k].range == tokens_b[k].range
        &&& tokens_a[k].loc == tokens_b[k].loc
    } by {
        assert(matches_model(tokens_a[k], ms[k]));
        assert(matches_model(tokens_b[k], ms[k]));
    }
}


/// The following lemmas restate `spec_step`, one dispatch branch each,
/// so that the driver can relate its own dispatch to the model without
/// unfolding the whole cascade at once.
pub proof fn lemma_step_eol(content: Seq<char>, st: LexState)
    requires
        0 <= st.i < content.len(),
        eol_char(content[st.i]),
    ensures
        spec_step(content, st) == step_newline(st),
{
    reveal(spec_step);
}

pub proof fn lemma_step_whitespace(content: Seq<char>, st: LexState)
    requires
        0 <= st.i < content.len(),
        !(eol_char(content[st.i])),
        whitespace_char(content[st.i]),
    ensures
        spec_step(content, st) == step_skip_to(st, st.i + 1),
{
    reveal(spec_step);
}

pub proof fn lemma_step_line_comment(content: Seq<char>, st: LexState)
    requires
        0 <= st.i < content.len(),
        !(eol_char(content[st.i])),
        !(whitespace_char(content[st.i])),
        content[st.i] == '/' && st.i + 1 < content.len() && content[st.i + 1] == '/',
    ensures
        spec_step(content, st) == step_skip_to(st, line_comment_stop(content, st.i)),
{
    reveal(spec_step);
}

pub proof fn lemma_step_block_comment(content: Seq<char>, st: LexState)
    requires
        0 <= st.i < content.len(),
        !(eol_char(content[st.i])),
        !(whitespace_char(content[st.i])),
        !(content[st.i] == '/' && st.i + 1 < content.len() && content[st.i + 1] == '/'),
        content[st.i] == '/' && st.i + 1 < content.len() && content[st.i + 1] == '*',
    ensures
        spec_step(content, st) == step_skip_to(st, block_comment_stop(content, st.i)),
{
    reveal(spec_step);
}

pub proof fn lemma_step_keyword(content: Seq<char>, st: LexState)
    requires
        0 <= st.i < content.len(),
        !(eol_char(content[st.i])),
        !(whitespace_char(content[st.i])),
        !(content[st.i] == '/' && st.i + 1 < content.len() && content[st.i + 1] == '/'),
        !(content[st.i] == '/' && st.i + 1 < content.len() && content[st.i + 1] == '*'),
        spec_find_keyword(content, st.i) is Some,
    ensures
        spec_step(content, st) == step_emit(content, st, st.i + spec_find_keyword(content, st.i).unwrap().len(), TokenType::Keyword, spec_find_keyword(content, st.i).unwrap()),
{
    reveal(spec_step);
}

pub proof fn lemma_step_true_literal(content: Seq<char>, st: LexState)
    requires
        0 <= st.i < content.len(),
        !(eol_char(content[st.i])),
        !(whitespace_char(content[st.i])),
        !(content[st.i] == '/' && st.i + 1 < content.len() && content[st.i + 1] == '/'),
        !(content[st.i] == '/' && st.i + 1 < content.len() && content[st.i + 1] == '*'),
        !(spec_find_keyword(content, st.i) is Some),
        word_at(content, st.i, "true"@),
    ensures
        spec_step(content, st) == step_emit(content, st, st.i + "true"@.len(), TokenType::Literal(Literal::Boolean), "true"@),
{
    reveal(spec_step);
}

pub proof fn lemma_step_false_literal(content: Seq<char>, st: LexState)
    requires
        0 <= st.i < content.len(),
        !(eol_char(content[st.i])),
        !(whitespace_char(content[st.i])),
        !(content[st.i] == '/' && st.i + 1 < content.len() && content[st.i + 1] == '/'),
        !(content[st.i] == '/' && st.i + 1 < content.len() && content[st.i + 1] == '*'),
        !(spec_find_keyword(content, st.i) is Some),
        !(word_at(content, st.i, "true"@)),
        word_at(content, st.i, "false"@),
    ensures
        spec_step(content, st) == step_emit(content, st, st.i + "false"@.len(), TokenType::Literal(Literal::Boolean), "false"@),
{
    reveal(spec_step);
}

pub proof fn lemma_step_null_literal(content: Seq<char>, st: LexState)
    requires
        0 <= st.i < content.len(),
        !(eol_char(content[st.i])),
        !(whitespace_char(content[st.i])),
        !(content[st.i] == '/' && st.i + 1 < content.len() && content[st.i + 1] == '/'),
        !(content[st.i] == '/' && st.i + 1 < content.len() && content[st.i + 1] == '*'),
        !(spec_find_keyword(content, st.i) is Some),
        !(word_at(content, st.i, "true"@)),
        !(word_at(content, st.i, "false"@)),
        word_at(content, st.i, "null"@),
    ensures
        spec_step(content, st) == step_emit(content, st, st.i + "null"@.len(), TokenType::Literal(Literal::Null), Seq::<char>::empty()),
{
    reveal(spec_step);
}

pub proof fn lemma_step_terminator(content: Seq<char>, st: LexState)
    requires
        0 <= st.i < content.len(),
        !(eol_char(content[st.i])),
        !(whitespace_char(content[st.i])),
        !(content[st.i] == '/' && st.i + 1 < content.len() && content[st.i + 1] == '/'),
        !(content[st.i] == '/' && st.i + 1 < content.len() && content[st.i + 1] == '*'),
        !(spec_find_keyword(content, st.i) is Some),
        !(word_at(content, st.i, "true"@)),
        !(word_at(content, st.i, "false"@)),
        !(word_at(content, st.i, "null"@)),
        content[st.i] == ';',
    ensures
        spec_step(content, st) == step_emit(content, st, st.i + 1, TokenType::Separator(Separator::Terminator), content.subrange(st.i, st.i + 1)),
{
    reveal(spec_step);
}

pub proof fn lemma_step_period(content: Seq<char>, st: LexState)
    requires
        0 <= st.i < content.len(),
        !(eol_char(content[st.i])),
        !(whitespace_char(content[st.i])),
        !(content[st.i] == '/' && st.i + 1 < content.len() && content[st.i + 1] == '/'),
        !(content[st.i] == '/' && st.i + 1 < content.len() && content[st.i + 1] == '*'),
        !(spec_find_keyword(content, st.i) is Some),
        !(word_at(content, st.i, "true"@)),
        !(word_at(content, st.i, "false"@)),
        !(word_at(content, st.i, "null"@)),
        !(content[st.i] == ';'),
        content[st.i] == '.',
    ensures
        spec_step(content, st) == step_emit(content, st, st.i + 1, TokenType::Separator(Separator::Period), content.subrange(st.i, st.i + 1)),
{
    reveal(spec_step);
}

pub proof fn lemma_step_comma(content: Seq<char>, st: LexState)
    requires
        0 <= st.i < content.len(),
        !(eol_char(content[st.i])),
        !(whitespace_char(content[st.i])),
        !(content[st.i] == '/' && st.i + 1 < content.len() && content[st.i + 1] == '/'),
        !(content[st.i] == '/' && st.i + 1 < content.len() && content[st.i + 1] == '*'),
        !(spec_find_keyword(content, st.i) is Some),
        !(word_at(content, st.i, "true"@)),
        !(word_at(content, st.i, "false"@)),
        !(word_at(content, st.i, "null"@)),
        !(content[st.i] == ';'),
        !(content[st.i] == '.'),
        content[st.i] == ',',
    ensures
        spec_step(content, st) == step_emit(content, st, st.i + 1, TokenType::Separator(Separator::Comma), content.subrange(st.i, st.i + 1)),
{
    reveal(spec_step);
}

pub proof fn lemma_step_parenthesis(content: Seq<char>, st: LexState)
    requires
        0 <= st.i < content.len(),
        !(eol_char(content[st.i])),
        !(whitespace_char(content[st.i])),
        !(content[st.i] == '/' && st.i + 1 < content.len() && content[st.i + 1] == '/'),
        !(content[st.i] == '/' && st.i + 1 < content.len() && content[st.i + 1] == '*'),
        !(spec_find_keyword(content, st.i) is Some),
        !(word_at(content, st.i, "true"@)),
        !(word_at(content, st.i, "false"@)),
        !(word_at(content, st.i, "null"@)),
        !(content[st.i] == ';'),
        !(content[st.i] == '.'),
        !(content[st.i] == ','),
        content[st.i] == '(' || content[st.i] == ')',
    ensures
        spec_step(content, st) == step_emit(content, st, st.i + 1, TokenType::Separator(Separator::Parenthesis), content.subrange(st.i, st.i + 1)),
{
    reveal(spec_step);
}

pub proof fn lemma_step_curly_brace(content: Seq<char>, st: LexState)
    requires
        0 <= st.i < content.len(),
        !(eol_char(content[st.i])),
        !(whitespace_char(content[st.i])),
        !(content[st.i] == '/' && st.i + 1 < content.len() && content[st.i + 1] == '/'),
        !(content[st.i] == '/' && st.i + 1 < content.len() && content[st.i + 1] == '*'),
        !(spec_find_keyword(content, st.i) is Some),
        !(word_at(content, st.i, "true"@)),
        !(word_at(content, st.i, "false"@)),
        !(word_at(content, st.i, "null"@)),
        !(content[st.i] == ';'),
        !(content[st.i] == '.'),
        !(content[st.i] == ','),
        !(content[st.i] == '(' || content[st.i] == ')'),
        content[st.i] == '{' || content[st.i] == '}',
    ensures
        spec_step(content, st) == step_emit(content, st, st.i + 1, TokenType::Separator(Separator::CurlyBrace), content.subrange(st.i, st.i + 1)),
{
    reveal(spec_step);
}

pub proof fn lemma_step_number(content: Seq<char>, st: LexState)
    requires
        0 <= st.i < content.len(),
        !(eol_char(content[st.i])),
        !(whitespace_char(content[st.i])),
        !(content[st.i] == '/' && st.i + 1 < content.len() && content[st.i + 1] == '/'),
        !(content[st.i] == '/' && st.i + 1 < content.len() && content[st.i + 1] == '*'),
        !(spec_find_keyword(content, st.i) is Some),
        !(word_at(content, st.i, "true"@)),
        !(word_at(content, st.i, "false"@)),
        !(word_at(content, st.i, "null"@)),
        !(content[st.i] == ';'),
        !(content[st.i] == '.'),
        !(content[st.i] == ','),
        !(content[st.i] == '(' || content[st.i] == ')'),
        !(content[st.i] == '{' || content[st.i] == '}'),
        number_char(content[st.i]),
    ensures
        spec_step(content, st) == step_emit(content, st, scan_number(content, st.i), TokenType::Literal(Literal::Number), content.subrange(st.i, scan_number(content, st.i))),
{
    reveal(spec_step);
}

pub proof fn lemma_step_identifier(content: Seq<char>, st: LexState)
    requires
        0 <= st.i < content.len(),
        !(eol_char(content[st.i])),
        !(whitespace_char(content[st.i])),
        !(content[st.i] == '/' && st.i + 1 < content.len() && content[st.i + 1] == '/'),
        !(content[st.i] == '/' && st.i + 1 < content.len() && content[st.i + 1] == '*'),
        !(spec_find_keyword(content, st.i) is Some),
        !(word_at(content, st.i, "true"@)),
        !(word_at(content, st.i, "false"@)),
        !(word_at(content, st.i, "null"@)),
        !(content[st.i] == ';'),
        !(content[st.i] == '.'),
        !(content[st.i] == ','),
        !(content[st.i] == '(' || content[st.i] == ')'),
        !(content[st.i] == '{' || content[st.i] == '}'),
        !(number_char(content[st.i])),
        identifier_char(content[st.i]),
    ensures
        spec_step(content, st) == step_emit(content, st, scan_identifier(content, st.i), TokenType::Identifier, content.subrange(st.i, scan_identifier(content, st.i))),
{
    reveal(spec_step);
}

pub proof fn lemma_step_string(content: Seq<char>, st: LexState)
    requires
        0 <= st.i < content.len(),
        !(eol_char(content[st.i])),
        !(whitespace_char(content[st.i])),
        !(content[st.i] == '/' && st.i + 1 < content.len() && content[st.i + 1] == '/'),
        !(content[st.i] == '/' && st.i + 1 < content.len() && content[st.i + 1] == '*'),
        !(spec_find_keyword(content, st.i) is Some),
        !(word_at(content, st.i, "true"@)),
        !(word_at(content, st.i, "false"@)),
        !(word_at(content, st.i, "null"@)),
        !(content[st.i] == ';'),
        !(content[st.i] == '.'),
        !(content[st.i] == ','),
        !(content[st.i] == '(' || content[st.i] == ')'),
        !(content[st.i] == '{' || content[st.i] == '}'),
        !(number_char(content[st.i])),
        !(identifier_char(content[st.i])),
        string_delimiter_char(content[st.i]),
    ensures
        spec_step(content, st) == (match scan_string(content, content[st.i], st.i + 1) {
            Ok(e) => step_emit(
                content,
                st,
                e + 1,
                TokenType::Literal(Literal::String),
                string_payload(content, st.i + 1, e),
            ),
            Err(p) => LexOutcome::Fail { kind: TokenErrorType::UnterminatedStringLiteral, at: p },
        }),
{
    reveal(spec_step);
}

pub proof fn lemma_step_operator(content: Seq<char>, st: LexState)
    requires
        0 <= st.i < content.len(),
        !(eol_char(content[st.i])),
        !(whitespace_char(content[st.i])),
        !(content[st.i] == '/' && st.i + 1 < content.len() && content[st.i + 1] == '/'),
        !(content[st.i] == '/' && st.i + 1 < content.len() && content[st.i + 1] == '*'),
        !(spec_find_keyword(content, st.i) is Some),
        !(word_at(content, st.i, "true"@)),
        !(word_at(content, st.i, "false"@)),
        !(word_at(content, st.i, "null"@)),
        !(content[st.i] == ';'),
        !(content[st.i] == '.'),
        !(content[st.i] == ','),
        !(content[st.i] == '(' || content[st.i] == ')'),
        !(content[st.i] == '{' || content[st.i] == '}'),
        !(number_char(content[st.i])),
        !(identifier_char(content[st.i])),
        !(string_delimiter_char(content[st.i])),
        spec_find_operator(content, st.i) is Some,
    ensures
        spec_step(content, st) == step_emit(content, st, st.i + spec_find_operator(content, st.i).unwrap().len(), TokenType::Operator, spec_find_operator(content, st.i).unwrap()),
{
    reveal(spec_step);
}

pub proof fn lemma_step_unmatched(content: Seq<char>, st: LexState)
    requires
        0 <= st.i < content.len(),
        !(eol_char(content[st.i])),
        !(whitespace_char(content[st.i])),
        !(content[st.i] == '/' && st.i + 1 < content.len() && content[st.i + 1] == '/'),
        !(content[st.i] == '/' && st.i + 1 < content.len() && content[st.i + 1] == '*'),
        !(spec_find_keyword(content, st.i) is Some),
        !(word_at(content, st.i, "true"@)),
        !(word_at(content, st.i, "false"@)),
        !(word_at(content, st.i, "null"@)),
        !(content[st.i] == ';'),
        !(content[st.i] == '.'),
        !(content[st.i] == ','),
        !(content[st.i] == '(' || content[st.i] == ')'),
        !(content[st.i] == '{' || content[st.i] == '}'),
        !(number_char(content[st.i])),
        !(identifier_char(content[st.i])),
        !(string_delimiter_char(content[st.i])),
        !(spec_find_operator(content, st.i) is Some),
    ensures
        spec_step(content, st) == (LexOutcome::Fail { kind: TokenErrorType::UnexpectedToken, at: st.i }),
{
    reveal(spec_step);
}


/// Extends the driver's "processed so far" equation over a step that skips.
pub proof fn lemma_lex_advance_skip(
    content: Seq<char>,
    models: Seq<TokenModel>,
    st1: LexState,
    st2: LexState,
)
    requires
        0 <= st1.i < content.len(),
        spec_step(content, st1) == (LexOutcome::Next { st: st2, emitted: None::<TokenModel> }),
        spec_tokenize(content, init_lex_state()) == lex_prepend(
            models,
            spec_tokenize(content, st1),
        ),
    ensures
        spec_tokenize(content, init_lex_state()) == lex_prepend(
            models,
            spec_tokenize(content, st2),
        ),
{
    assert(spec_tokenize(content, st1) == spec_tokenize(content, st2));
}

/// Extends the driver's "processed so far" equation over a step that emits
/// the token model `m`.
pub proof fn lemma_lex_advance_emit(
    content: Seq<char>,
    models: Seq<TokenModel>,
    st1: LexState,
    st2: LexState,
    m: TokenModel,
)
    requires
        0 <= st1.i < content.len(),
        spec_step(content, st1) == (LexOutcome::Next { st: st2, emitted: Some(m) }),
        spec_tokenize(content, init_lex_state()) == lex_prepend(
            models,
            spec_tokenize(content, st1),
        ),
    ensures
        spec_tokenize(content, init_lex_state()) == lex_prepend(
            models.push(m),
            spec_tokenize(content, st2),
        ),
{
    match spec_tokenize(content, st2) {
        Err(f) => {
            assert(spec_tokenize(content, st1) == Err::<Seq<TokenModel>, LexFail>(f));
        },
        Ok(rest) => {
            assert(spec_tokenize(content, st1) == Ok::<Seq<TokenModel>, LexFail>(seq![m] + rest));
            assert(models + (seq![m] + rest) =~= models.push(m) + rest);
        },
    }
}

/// Turns a failing step into the failure of the whole tokenization.
pub proof fn lemma_lex_fail(
    content: Seq<char>,
    models: Seq<TokenModel>,
    st1: LexState,
    kind: TokenErrorType,
    at: int,
)
    requires
        0 <= st1.i < content.len(),
        spec_step(content, st1) == (LexOutcome::Fail { kind, at }),
        spec_tokenize(content, init_lex_state()) == lex_prepend(
            models,
            spec_tokenize(content, st1),
        ),
    ensures
        spec_tokenize(content, init_lex_state()) == Err::<Seq<TokenModel>, LexFail>(
            LexFail { kind, at },
        ),
{
}

/// A matching token/model pair appended to matching lists keeps them
/// matching.
pub proof fn lemma_models_push(
    tokens: Seq<Token>,
    ms: Seq<TokenModel>,
    t: Token,
    m: TokenModel,
)
    requires
        matches_models(tokens, ms),
        matches_model(t, m),
    ensures
        matches_models(tokens.push(t), ms.push(m)),
{
    assert forall|k: int| 0 <= k < ms.push(m).len() implies matches_model(
        #[trigger] tokens.push(t)[k],
        ms.push(m)[k],
    ) by {
        if k < ms.len() {
            assert(tokens.push(t)[k] == tokens[k]);
            assert(ms.push(m)[k] == ms[k]);
        } else {
            assert(tokens.push(t)[k] == t);
            assert(ms.push(m)[k] == m);
        }
    }
}

/// An emitting step's token spans exactly from the old position to the new.
pub proof fn lemma_spec_step_emit_range(content: Seq<char>, st: LexState)
    requires
        0 <= st.i < content.len(),
    ensures
        spec_step(content, st) matches LexOutcome::Next { st: st2, emitted: Some(m) } ==> {
            &&& m.range_start == st.i
            &&& m.range_end == st2.i
        },
{
    reveal(spec_step);
}

/// Every token of a run starts at or after the state the run began in, is
/// non-empty, and later tokens start at or after where earlier ones end.
pub proof fn lemma_models_layout(content: Seq<char>, st: LexState, ms: Seq<TokenModel>)
    requires
        spec_tokenize(content, st) == Ok::<Seq<TokenModel>, LexFail>(ms),
    ensures
        forall|j: int|
            0 <= j < ms.len() ==> (#[trigger] ms[j]).range_start >= st.i && ms[j].range_end
                > ms[j].range_start,
        forall|j1: int, j2: int|
            0 <= j1 < j2 < ms.len() ==> (#[trigger] ms[j1]).range_end <= (
            #[trigger] ms[j2]).range_start,
    decreases content.len() - st.i,
{
    if st.i < 0 || st.i >= content.len() {
        assert(ms =~= Seq::<TokenModel>::empty());
    } else {
        lemma_spec_step_advances(content, st);
        lemma_spec_step_emit_range(content, st);
        match spec_step(content, st) {
            LexOutcome::Fail { .. } => {},
            LexOutcome::Next { st: st2, emitted } => {
                let inner = spec_tokenize(content, st2);
                match inner {
                    Err(_) => {},
                    Ok(rest) => {
                        lemma_models_layout(content, st2, rest);
                        match emitted {
                            None => {
                                assert(ms == rest);
                            },
                            Some(m) => {
                                assert(ms == seq![m] + rest);
                                assert forall|j: int| 0 <= j < ms.len() implies (
                                #[trigger] ms[j]).range_start >= st.i && ms[j].range_end
                                    > ms[j].range_start by {
                                    if j == 0 {
                                        assert(ms[0] == m);
                                    } else {
                                        assert(ms[j] == rest[j - 1]);
                                    }
                                }
                                assert forall|j1: int, j2: int|
                                    0 <= j1 < j2 < ms.len() implies (
                                #[trigger] ms[j1]).range_end <= (#[trigger] ms[j2]).range_start by {
                                    assert(ms[j2] == rest[j2 - 1]);
                                    if j1 == 0 {
                                        assert(ms[0] == m);
                                    } else {
                                        assert(ms[j1] == rest[j1 - 1]);
                                    }
                                }
                            },
                        }
                    },
                }
            },
        }
    }
}

/// The run from `st` visits a state whose index is exactly `k`.
pub open spec fn reaches(content: Seq<char>, st: LexState, k: int) -> bool
    decreases content.len() - st.i
        via reaches_decreases
{
    if !(0 <= st.i <= k <= content.len()) {
        false
    } else if st.i == k {
        true
    } else {
        match spec_step(content, st) {
            LexOutcome::Next { st: st2, .. } => reaches(content, st2, k),
            LexOutcome::Fail { .. } => false,
        }
    }
}

#[via_fn]
proof fn reaches_decreases(content: Seq<char>, st: LexState, k: int) {
    if 0 <= st.i <= k <= content.len() && st.i != k {
        lemma_spec_step_advances(content, st);
    }
}

/// A run that yields a token list visits the end position of each of its
/// tokens.
pub proof fn lemma_tokenize_reaches(content: Seq<char>, st: LexState, ms: Seq<TokenModel>, n: int)
    requires
        0 <= st.i <= content.len(),
        spec_tokenize(content, st) == Ok::<Seq<TokenModel>, LexFail>(ms),
        0 <= n < ms.len(),
    ensures
        st.i < ms[n].range_end <= content.len(),
        reaches(content, st, ms[n].range_end),
    decreases content.len() - st.i,
{
    lemma_models_layout(content, st, ms);
    if st.i >= content.len() {
        assert(ms =~= Seq::<TokenModel>::empty());
    } else {
        lemma_spec_step_advances(content, st);
        lemma_spec_step_emit_range(content, st);
        match spec_step(content, st) {
            LexOutcome::Fail { .. } => {},
            LexOutcome::Next { st: st2, emitted } => {
                let inner = spec_tokenize(content, st2);
                match inner {
                    Err(_) => {},
                    Ok(rest) => {
                        match emitted {
                            None => {
                                assert(ms == rest);
                                lemma_tokenize_reaches(content, st2, rest, n);
                            },
                            Some(m) => {
                                assert(ms == seq![m] + rest);
                                if n == 0 {
                                    assert(ms[0] == m);
                                    assert(reaches(content, st2, st2.i));
                                } else {
                                    assert(ms[n] == rest[n - 1]);
                                    lemma_tokenize_reaches(content, st2, rest, n - 1);
                                }
                            },
                        }
                    },
                }
            },
        }
    }
}

/// Truncating the source at `k` does not change a step that stays inside the
/// kept part.
#[verifier::rlimit(100)]
pub proof fn lemma_spec_step_prefix(content: Seq<char>, k: int, st: LexState)
    requires
        0 <= st.i < k <= content.len(),
        spec_step(content, st) matches LexOutcome::Next { st: st2, emitted } && st2.i <= k,
    ensures
        spec_step(content.subrange(0, k), st) == spec_step(content, st),
{
    reveal(spec_step);
    let prefix = content.subrange(0, k);
    let i = st.i;

    if k == content.len() {
        assert(prefix =~= content);
        return ;
    }

    if eol_char(content[i]) {
        assert(spec_step(prefix, st) == spec_step(content, st));
    } else if whitespace_char(content[i]) {
        assert(spec_step(prefix, st) == spec_step(content, st));
    } else if content[i] == '/' && i + 1 < content.len() && content[i + 1] == '/' {
        assert(scan_to_eol(content, i) == scan_to_eol(content, i + 1));
        assert(scan_to_eol(content, i + 1) == scan_to_eol(content, i + 2));
        lemma_scan_to_eol_bounds(content, i + 2);
        crate::tokenizer::consumers::comments::lemma_scan_to_eol_prefix(content, k, i);
        assert(spec_step(prefix, st) == spec_step(content, st));
    } else if content[i] == '/' && i + 1 < content.len() && content[i + 1] == '*' {
        assert(scan_to_block_end(content, i) == scan_to_block_end(content, i + 1));
        lemma_scan_to_block_end_bounds(content, i + 1);
        crate::tokenizer::consumers::comments::lemma_scan_to_block_end_prefix(content, k, i);
        assert(spec_step(prefix, st) == spec_step(content, st));
    } else if spec_find_keyword(content, i) is Some {
        crate::tokenizer::consumers::keywords::lemma_spec_find_keyword_some(content, i);
        crate::tokenizer::consumers::keywords::lemma_spec_find_keyword_prefix(content, k, i);
        let w = spec_find_keyword(content, i).unwrap();
        assert(prefix.subrange(i, i + w.len()) =~= content.subrange(i, i + w.len()));
        assert(spec_step(prefix, st) == spec_step(content, st));
    } else if word_at(content, i, "true"@) || word_at(content, i, "false"@) || word_at(
        content,
        i,
        "null"@,
    ) {
        reveal_strlit("true");
        reveal_strlit("false");
        reveal_strlit("null");
        crate::tokenizer::consumers::keywords::lemma_spec_find_keyword_prefix(content, k, i);
        crate::tokenizer::consumers::lemma_word_at_prefix(content, k, i, "true"@);
        crate::tokenizer::consumers::lemma_word_at_prefix(content, k, i, "false"@);
        crate::tokenizer::consumers::lemma_word_at_prefix(content, k, i, "null"@);
        if word_at(content, i, "true"@) {
            assert(prefix.subrange(i, i + 4) =~= content.subrange(i, i + 4));
        } else if word_at(content, i, "false"@) {
            assert(prefix.subrange(i, i + 5) =~= content.subrange(i, i + 5));
        } else {
            assert(prefix.subrange(i, i + 4) =~= content.subrange(i, i + 4));
        }
        assert(spec_step(prefix, st) == spec_step(content, st));
    } else if content[i] == ';' || content[i] == '.' || content[i] == ',' || content[i] == '('
        || content[i] == ')' || content[i] == '{' || content[i] == '}' {
        crate::tokenizer::consumers::keywords::lemma_spec_find_keyword_prefix(content, k, i);
        crate::tokenizer::consumers::lemma_word_at_prefix(content, k, i, "true"@);
        crate::tokenizer::consumers::lemma_word_at_prefix(content, k, i, "false"@);
        crate::tokenizer::consumers::lemma_word_at_prefix(content, k, i, "null"@);
        reveal_strlit("true");
        reveal_strlit("false");
        reveal_strlit("null");
        assert(prefix.subrange(i, i + 1) =~= content.subrange(i, i + 1));
        assert(spec_step(prefix, st) == spec_step(content, st));
    } else if number_char(content[i]) {
        crate::tokenizer::consumers::keywords::lemma_spec_find_keyword_prefix(content, k, i);
        crate::tokenizer::consumers::lemma_word_at_prefix(content, k, i, "true"@);
        crate::tokenizer::consumers::lemma_word_at_prefix(content, k, i, "false"@);
        crate::tokenizer::consumers::lemma_word_at_prefix(content, k, i, "null"@);
        reveal_strlit("true");
        reveal_strlit("false");
        reveal_strlit("null");
        lemma_scan_number_bounds(content, i);
        crate::tokenizer::consumers::number::lemma_scan_number_prefix(content, k, i);
        assert(prefix.subrange(i, scan_number(content, i)) =~= content.subrange(
            i,
            scan_number(content, i),
        ));
        assert(spec_step(prefix, st) == spec_step(content, st));
    } else if identifier_char(content[i]) {
        crate::tokenizer::consumers::keywords::lemma_spec_find_keyword_prefix(content, k, i);
        crate::tokenizer::consumers::lemma_word_at_prefix(content, k, i, "true"@);
        crate::tokenizer::consumers::lemma_word_at_prefix(content, k, i, "false"@);
        crate::tokenizer::consumers::lemma_word_at_prefix(content, k, i, "null"@);
        reveal_strlit("true");
        reveal_strlit("false");
        reveal_strlit("null");
        lemma_scan_identifier_bounds(content, i);
        crate::tokenizer::consumers::identifier::lemma_scan_identifier_prefix(content, k, i);
        assert(prefix.subrange(i, scan_identifier(content, i)) =~= content.subrange(
            i,
            scan_identifier(content, i),
        ));
        assert(spec_step(prefix, st) == spec_step(content, st));
    } else if string_delimiter_char(content[i]) {
        crate::tokenizer::consumers::keywords::lemma_spec_find_keyword_prefix(content, k, i);
        crate::tokenizer::consumers::lemma_word_at_prefix(content, k, i, "true"@);
        crate::tokenizer::consumers::lemma_word_at_prefix(content, k, i, "false"@);
        crate::tokenizer::consumers::lemma_word_at_prefix(content, k, i, "null"@);
        reveal_strlit("true");
        reveal_strlit("false");
        reveal_strlit("null");
        lemma_scan_string_bounds(content, content[i], i + 1);
        match scan_string(content, content[i], i + 1) {
            Ok(e) => {
                crate::tokenizer::consumers::string::lemma_scan_string_prefix(
                    content,
                    k,
                    content[i],
                    i + 1,
                );
                crate::tokenizer::consumers::string::lemma_string_payload_prefix(
                    content,
                    k,
                    i + 1,
                    e,
                );
                assert(prefix.subrange(i, e + 1) =~= content.subrange(i, e + 1));
            },
            Err(_) => {},
        }
        assert(spec_step(prefix, st) == spec_step(content, st));
    } else if spec_find_operator(content, i) is Some {
        crate::tokenizer::consumers::keywords::lemma_spec_find_keyword_prefix(content, k, i);
        crate::tokenizer::consumers::lemma_word_at_prefix(content, k, i, "true"@);
        crate::tokenizer::consumers::lemma_word_at_prefix(content, k, i, "false"@);
        crate::tokenizer::consumers::lemma_word_at_prefix(content, k, i, "null"@);
        reveal_strlit("true");
        reveal_strlit("false");
        reveal_strlit("null");
        crate::tokenizer::consumers::operator::lemma_spec_find_operator_some(content, i);
        crate::tokenizer::consumers::operator::lemma_spec_find_operator_prefix(content, k, i);
        let w = spec_find_operator(content, i).unwrap();
        assert(prefix.subrange(i, i + w.len()) =~= content.subrange(i, i + w.len()));
        assert(spec_step(prefix, st) == spec_step(content, st));
    } else {
    }
}

/// Replays a run on the truncated source, as far as the run reaches `k`:
/// the truncated run succeeds and yields exactly the tokens that end at or
/// before `k`, which form a prefix of the full run's tokens.
pub proof fn lemma_tokenize_prefix_run(
    content: Seq<char>,
    k: int,
    st: LexState,
    ms: Seq<TokenModel>,
) -> (n: int)
    requires
        0 <= st.i <= k <= content.len(),
        spec_tokenize(content, st) == Ok::<Seq<TokenModel>, LexFail>(ms),
        reaches(content, st, k),
    ensures
        0 <= n <= ms.len(),
        spec_tokenize(content.subrange(0, k), st) == Ok::<Seq<TokenModel>, LexFail>(
            ms.subrange(0, n),
        ),
        forall|j: int| 0 <= j < n ==> (#[trigger] ms[j]).range_end <= k,
        forall|j: int| n <= j < ms.len() ==> (#[trigger] ms[j]).range_start >= k,
    decreases content.len() - st.i,
{
    let prefix = content.subrange(0, k);
    lemma_models_layout(content, st, ms);
    if st.i == k {
        assert(ms.subrange(0, 0) =~= Seq::<TokenModel>::empty());
        return 0;
    }
    lemma_spec_step_advances(content, st);
    lemma_spec_step_emit_range(content, st);
    match spec_step(content, st) {
        LexOutcome::Fail { .. } => {
            assert(false);
            0
        },
        LexOutcome::Next { st: st2, emitted } => {
            assert(reaches(content, st2, k));
            assert(0 <= st2.i <= k) by {
                reveal_with_fuel(reaches, 2);
            }
            lemma_spec_step_prefix(content, k, st);
            let inner = spec_tokenize(content, st2);
            match inner {
                Err(_) => {
                    assert(false);
                    0
                },
                Ok(rest) => {
                    match emitted {
                        None => {
                            assert(ms == rest);
                            let n = lemma_tokenize_prefix_run(content, k, st2, rest);
                            n
                        },
                        Some(m) => {
                            assert(ms == seq![m] + rest);
                            let n2 = lemma_tokenize_prefix_run(content, k, st2, rest);
                            assert(ms.subrange(0, n2 + 1) =~= seq![m] + rest.subrange(0, n2));
                            assert(ms[0] == m);
                            assert forall|j: int| 0 <= j < n2 + 1 implies (
                            #[trigger] ms[j]).range_end <= k by {
                                if j > 0 {
                                    assert(ms[j] == rest[j - 1]);
                                }
                            }
                            assert forall|j: int| n2 + 1 <= j < ms.len() implies (
                            #[trigger] ms[j]).range_start >= k by {
                                assert(ms[j] == rest[j - 1]);
                            }
                            n2 + 1
                        },
                    }
                },
            }
        },
    }
}

/// Law: tokenizing is prefix-deterministic. Cutting the source at the end
/// of the n-th token and tokenizing the cut text again reproduces exactly
/// the first n tokens.
pub proof fn lemma_prefix_determinism(content: Seq<char>, ms: Seq<TokenModel>, n: int)
    requires
        spec_tokenize(content, init_lex_state()) == Ok::<Seq<TokenModel>, LexFail>(ms),
        1 <= n <= ms.len(),
    ensures
        spec_tokenize(content.subrange(0, ms[n - 1].range_end), init_lex_state()) == Ok::<
            Seq<TokenModel>,
            LexFail,
        >(ms.subrange(0, n)),
{
    let st0 = init_lex_state();
    let k = ms[n - 1].range_end;
    lemma_models_layout(content, st0, ms);
    lemma_tokenize_reaches(content, st0, ms, n - 1);
    let n2 = lemma_tokenize_prefix_run(content, k, st0, ms);
    if n2 < n {
        assert(ms[n - 1].range_start >= k);
        assert(false);
    }
    if n2 > n {
        assert(ms[n].range_end <= k);
        assert(ms[n - 1].range_end <= ms[n].range_start);
        assert(false);
    }
}

} // verus!
