use vstd::prelude::*;
use vstd::string::StrSliceExecFns;

use crate::tokenizer::consumers::boolean::{consume_boolean, is_boolean};
use crate::tokenizer::consumers::comments::{
    consume_block_comment, consume_line_comment, is_block_comment, is_line_comment,
    lemma_scan_to_block_end_bounds, lemma_scan_to_eol_bounds,
};
use crate::tokenizer::consumers::curly_brace::{consume_curly_brace, is_curly_brace};
use crate::tokenizer::consumers::eol::{consume_eol, is_eol};
use crate::tokenizer::consumers::identifier::{consume_identifier, is_identifier, lemma_scan_identifier_bounds};
use crate::tokenizer::consumers::keywords::{consume_keyword, find_keyword};
use crate::tokenizer::consumers::null::{consume_null, is_null};
use crate::tokenizer::consumers::number::{consume_number, is_number, lemma_scan_number_bounds};
use crate::tokenizer::consumers::operator::{consume_operator, find_operator};
use crate::tokenizer::consumers::parenthesis::{consume_parenthesis, is_parenthesis};
use crate::tokenizer::consumers::separator::{consume_comma, consume_period, is_comma, is_period};
use crate::tokenizer::consumers::string::{consume_string, is_string, lemma_scan_string_bounds};
use crate::tokenizer::consumers::terminator::{consume_terminator, is_terminator};
use crate::tokenizer::consumers::whitespace::{consume_whitespace, is_whitespace};
use crate::tokenizer::consumers::identifier::scan_identifier;
use crate::tokenizer::consumers::number::scan_number;
use crate::tokenizer::consumers::string::{scan_string, string_payload};
use crate::tokenizer::consumers::word_at;
use crate::tokenizer::lexer_model::{
    init_lex_state, lemma_lex_advance_emit, lemma_lex_advance_skip, lemma_lex_fail,
    lemma_models_push, lemma_step_block_comment, lemma_step_comma, lemma_step_curly_brace,
    lemma_step_eol, lemma_step_false_literal, lemma_step_identifier, lemma_step_keyword,
    lemma_step_line_comment, lemma_step_null_literal, lemma_step_number, lemma_step_operator,
    lemma_step_parenthesis, lemma_step_period, lemma_step_string, lemma_step_terminator,
    lemma_step_true_literal, lemma_step_unmatched, lemma_step_whitespace, lex_prepend,
    lex_state_of, matches_model, matches_models, model_at, spec_step, spec_tokenize, LexFail,
    TokenModel,
};
use crate::tokenizer::{
    lemma_kind_boolean, lemma_kind_identifier, lemma_kind_keyword, lemma_kind_null,
    lemma_kind_number, lemma_kind_operator, lemma_kind_separator, lemma_kind_string, token_covers,
    token_kind_ok, tokens_wf, FileLocationPos, Literal, Separator, Token, TokenErrorType,
    TokenType, TokenizeError,
};

verus! {

/// The character cursor: the source text as a random-accessible sequence of
/// characters, an index into it, and enough bookkeeping to compute
/// line/column positions in constant time.
#[derive(Debug)]
pub struct Tokenizer {
    pub index: usize,
    pub eol_count: usize,
    pub eol_index: usize,
    pub file_content: Vec<char>,
}

impl Tokenizer {
    /// The cursor never moves more than one position past the end, and the
    /// line bookkeeping never runs ahead of the cursor.
    pub open spec fn wf(self) -> bool {
        &&& self.file_content@.len() + 2 <= usize::MAX
        &&& self.index <= self.file_content@.len() + 1
        &&& self.eol_count <= self.index
        &&& self.eol_index <= self.index
    }

    /// The characters of the source text.
    pub open spec fn content(self) -> Seq<char> {
        self.file_content@
    }

    /// The line/column position of the cursor's current index.
    pub open spec fn cur_loc(self) -> FileLocationPos {
        FileLocationPos {
            line: (self.eol_count + 1) as usize,
            column: (self.index - self.eol_index) as usize,
        }
    }

    /// The same cursor moved to `new_index`.
    pub open spec fn advanced(self, new_index: usize) -> Tokenizer {
        Tokenizer { index: new_index, ..self }
    }

    /// The same cursor after recording a line break at its current index.
    pub open spec fn line_marked(self) -> Tokenizer {
        Tokenizer {
            eol_count: (self.eol_count + 1) as usize,
            eol_index: self.index,
            ..self
        }
    }

    pub fn new(file_content: &String) -> (t: Tokenizer)
        requires
            file_content@.len() + 2 <= usize::MAX,
        ensures
            t.wf(),
            t.content() == file_content@,
            t.index == 0,
            t.eol_count == 0,
            t.eol_index == 0,
    {
        let mut chars: Vec<char> = Vec::new();
        let text: &str = file_content.as_str();
        let n: usize = text.unicode_len();
        let mut i: usize = 0;
        while i < n
            invariant
                n == text@.len(),
                text@ == file_content@,
                i <= n,
                chars@ =~= text@.subrange(0, i as int),
            decreases n - i,
        {
            chars.push(text.get_char(i));
            i = i + 1;
        }
        proof {
            assert(chars@ =~= file_content@);
        }
        Tokenizer { index: 0, eol_count: 0, eol_index: 0, file_content: chars }
    }

    pub fn has_tokens(&self) -> (r: bool)
        ensures
            r == (self.index < self.content().len()),
    {
        self.token().is_some()
    }

    pub fn token(&self) -> (r: Option<&char>)
        ensures
            match r {
                Some(c) => self.index < self.content().len() && *c == self.content()[self.index as int],
                None => self.index >= self.content().len(),
            },
    {
        if self.index < self.file_content.len() {
            Some(&self.file_content[self.index])
        } else {
            None
        }
    }

    pub fn peek(&self) -> (r: Option<&char>)
        requires
            self.index + 1 <= usize::MAX,
        ensures
            match r {
                Some(c) => self.index + 1 < self.content().len() && *c == self.content()[self.index + 1],
                None => self.index + 1 >= self.content().len(),
            },
    {
        if self.index + 1 < self.file_content.len() {
            Some(&self.file_content[self.index + 1])
        } else {
            None
        }
    }

    pub fn peek_forward(&self, distance: usize) -> (r: Option<&char>)
        requires
            self.index + distance <= usize::MAX,
        ensures
            match r {
                Some(c) => self.index + distance < self.content().len() && *c == self.content()[self.index + distance],
                None => self.index + distance >= self.content().len(),
            },
    {
        if self.index + distance < self.file_content.len() {
            Some(&self.file_content[self.index + distance])
        } else {
            None
        }
    }

    pub fn peek_back(&self) -> (r: Option<&char>)
        requires
            self.index >= 1,
        ensures
            match r {
                Some(c) => self.index - 1 < self.content().len() && *c == self.content()[self.index - 1],
                None => self.index - 1 >= self.content().len(),
            },
    {
        if self.index - 1 < self.file_content.len() {
            Some(&self.file_content[self.index - 1])
        } else {
            None
        }
    }

    /// Retreats one position; used when a classifier over-consumes while
    /// probing. It never retreats past the most recently recorded line start.
    pub fn walk_back(&mut self)
        requires
            old(self).wf(),
            old(self).eol_count < old(self).index,
            old(self).eol_index < old(self).index,
        ensures
            final(self).wf(),
            *final(self) == old(self).advanced((old(self).index - 1) as usize),
    {
        self.index = self.index - 1;
    }

    pub fn get_current_index(&self) -> (r: usize)
        ensures
            r == self.index,
    {
        return self.index;
    }

    /// Records that the character just stepped over was a line break, so that
    /// line/column positions can be computed from the raw index.
    pub fn found_new_line(&mut self)
        requires
            old(self).wf(),
            old(self).eol_count < old(self).index,
        ensures
            final(self).wf(),
            *final(self) == old(self).line_marked(),
    {
        self.eol_count = self.eol_count + 1;
        self.eol_index = self.index;
    }

    pub fn get_current_file_loc(&self) -> (r: FileLocationPos)
        requires
            self.wf(),
        ensures
            r == self.cur_loc(),
    {
        let line = self.eol_count + 1;
        let column = self.index - self.eol_index;

        FileLocationPos { line, column }
    }

    /// Returns the current character (or none at the end) and advances.
    pub fn consume(&mut self) -> (r: Option<&char>)
        requires
            old(self).wf(),
            old(self).index <= old(self).content().len(),
        ensures
            final(self).wf(),
            *final(self) == old(self).advanced((old(self).index + 1) as usize),
            match r {
                Some(c) => old(self).index < old(self).content().len() && *c == old(self).content()[old(self).index as int],
                None => old(self).index >= old(self).content().len(),
            },
    {
        let value = if self.index < self.file_content.len() {
            Some(&self.file_content[self.index])
        } else {
            None
        };

        self.index = self.index + 1;

        return value;
    }

    /// Advances without returning the character.
    pub fn next(&mut self)
        requires
            old(self).wf(),
            old(self).index <= old(self).content().len(),
        ensures
            final(self).wf(),
            *final(self) == old(self).advanced((old(self).index + 1) as usize),
    {
        self.index = self.index + 1;
    }
}

/// A well-formed token list extended with one more well-formed token that
/// starts at or after the previous end stays well-formed.
#[verifier::rlimit(50)]
proof fn lemma_tokens_wf_push(content: Seq<char>, tokens: Seq<Token>, t: Token)
    requires
        tokens_wf(content, tokens),
        token_covers(content, t),
        token_kind_ok(content, t),
        forall|i: int| 0 <= i < tokens.len() ==> (#[trigger] tokens[i]).range.1 <= t.range.0,
    ensures
        tokens_wf(content, tokens.push(t)),
        forall|i: int|
            0 <= i < tokens.push(t).len() ==> (#[trigger] tokens.push(t)[i]).range.1 <= t.range.1,
{
    let ts = tokens.push(t);
    assert forall|i: int| 0 <= i < ts.len() implies token_covers(content, #[trigger] ts[i])
        && token_kind_ok(content, ts[i]) && ts[i].range.1 <= t.range.1 by {
        if i < tokens.len() {
            assert(ts[i] == tokens[i]);
        } else {
            assert(ts[i] == t);
        }
    }
    assert forall|i: int, j: int| 0 <= i < j < ts.len() implies (#[trigger] ts[i]).range.1 <= (
    #[trigger] ts[j]).range.0 by {
        assert(ts[i] == tokens[i]);
        if j < tokens.len() {
            assert(ts[j] == tokens[j]);
        } else {
            assert(ts[j] == t);
        }
    }
}

/// The tokenizer driver: asks the classifiers in a fixed priority order,
/// first match wins, until the input is exhausted or no classifier matches.
/// The result is pinned completely: it is exactly what the mathematical
/// tokenizer `spec_tokenize` prescribes, token for token and field for
/// field; in particular every token covers exactly its source slice and the
/// ranges are non-overlapping and non-decreasing, while whitespace and
/// comments fill the gaps and produce no token.
#[verifier::rlimit(100)]
pub fn parse(file_content: &String) -> (r: Result<Vec<Token>, TokenizeError>)
    requires
        file_content@.len() + 2 <= usize::MAX,
    ensures
        r matches Ok(tokens) ==> tokens_wf(file_content@, tokens@),
        r matches Ok(tokens) ==> (spec_tokenize(file_content@, init_lex_state()) matches Ok(ms)
            && matches_models(tokens@, ms)),
        r matches Err(e) ==> e.index <= file_content@.len(),
        r matches Err(e) ==> spec_tokenize(file_content@, init_lex_state()) == Err::<
            Seq<TokenModel>,
            LexFail,
        >((LexFail { kind: e.error_type, at: e.index as int })),
{
    let ghost content = file_content@;

    let mut tokens: Vec<Token> = Vec::new();
    let ghost mut models: Seq<TokenModel> = Seq::empty();
    let mut tokenizer = Tokenizer::new(file_content);

    proof {
        assert(lex_state_of(tokenizer) == init_lex_state());
        match spec_tokenize(content, init_lex_state()) {
            Ok(rest) => {
                assert(Seq::<TokenModel>::empty() + rest =~= rest);
            },
            Err(_) => {},
        }
    }

    while tokenizer.has_tokens()
        invariant
            content == file_content@,
            tokenizer.wf(),
            tokenizer.content() == content,
            tokenizer.index <= content.len(),
            tokens_wf(content, tokens@),
            forall|i: int|
                0 <= i < tokens@.len() ==> (#[trigger] tokens@[i]).range.1 <= tokenizer.index,
            matches_models(tokens@, models),
            spec_tokenize(content, init_lex_state()) == lex_prepend(
                models,
                spec_tokenize(content, lex_state_of(tokenizer)),
            ),
        decreases content.len() - tokenizer.index,
    {
        if is_eol(&tokenizer) {
            let ghost st1 = lex_state_of(tokenizer);
            consume_eol(&mut tokenizer)?;
            proof {
                lemma_step_eol(content, st1);
                lemma_lex_advance_skip(content, models, st1, lex_state_of(tokenizer));
            }
            continue;
        }

        if is_whitespace(&tokenizer) {
            let ghost st1 = lex_state_of(tokenizer);
            consume_whitespace(&mut tokenizer)?;
            proof {
                lemma_step_whitespace(content, st1);
                lemma_lex_advance_skip(content, models, st1, lex_state_of(tokenizer));
            }
            continue;
        }

        if is_line_comment(&tokenizer) {
            let ghost st1 = lex_state_of(tokenizer);
            proof {
                lemma_scan_to_eol_bounds(content, tokenizer.index as int);
            }
            consume_line_comment(&mut tokenizer);
            proof {
                lemma_step_line_comment(content, st1);
                lemma_lex_advance_skip(content, models, st1, lex_state_of(tokenizer));
            }
            continue;
        }

        if is_block_comment(&tokenizer) {
            let ghost st1 = lex_state_of(tokenizer);
            proof {
                lemma_scan_to_block_end_bounds(content, tokenizer.index as int);
            }
            consume_block_comment(&mut tokenizer);
            proof {
                lemma_step_block_comment(content, st1);
                lemma_lex_advance_skip(content, models, st1, lex_state_of(tokenizer));
            }
            continue;
        }

        if let Ok(keyword) = find_keyword(&tokenizer) {
            let ghost st1 = lex_state_of(tokenizer);
            match consume_keyword(&mut tokenizer, keyword) {
                Ok(token) => {
                    proof {
                        lemma_kind_keyword(content, token);
                        lemma_step_keyword(content, st1);
                        let m = model_at(
                            content,
                            st1,
                            st1.i + keyword@.len(),
                            TokenType::Keyword,
                            keyword@,
                        );
                        assert(matches_model(token, m));
                        lemma_models_push(tokens@, models, token, m);
                        lemma_lex_advance_emit(content, models, st1, lex_state_of(tokenizer), m);
                        lemma_tokens_wf_push(content, tokens@, token);
                        models = models.push(m);
                    }
                    tokens.push(token);
                },
                Err(e) => {
                    return Err(e);
                },
            }
            continue;
        }

        if is_boolean(&tokenizer) {
            let ghost st1 = lex_state_of(tokenizer);
            match consume_boolean(&mut tokenizer) {
                Ok(token) => {
                    proof {
                        lemma_kind_boolean(content, token);
                        reveal_strlit("true");
                        reveal_strlit("false");
                        let tru = word_at(content, st1.i, "true"@);
                        if tru {
                            lemma_step_true_literal(content, st1);
                        } else {
                            lemma_step_false_literal(content, st1);
                        }
                        let m = if tru {
                            model_at(
                                content,
                                st1,
                                st1.i + "true"@.len(),
                                TokenType::Literal(Literal::Boolean),
                                "true"@,
                            )
                        } else {
                            model_at(
                                content,
                                st1,
                                st1.i + "false"@.len(),
                                TokenType::Literal(Literal::Boolean),
                                "false"@,
                            )
                        };
                        assert(matches_model(token, m));
                        lemma_models_push(tokens@, models, token, m);
                        lemma_lex_advance_emit(content, models, st1, lex_state_of(tokenizer), m);
                        lemma_tokens_wf_push(content, tokens@, token);
                        models = models.push(m);
                    }
                    tokens.push(token);
                },
                Err(e) => {
                    return Err(e);
                },
            }
            continue;
        }

        if is_null(&tokenizer) {
            let ghost st1 = lex_state_of(tokenizer);
            match consume_null(&mut tokenizer) {
                Ok(token) => {
                    proof {
                        lemma_kind_null(content, token);
                        reveal_strlit("null");
                        lemma_step_null_literal(content, st1);
                        let m = model_at(
                            content,
                            st1,
                            st1.i + "null"@.len(),
                            TokenType::Literal(Literal::Null),
                            Seq::<char>::empty(),
                        );
                        assert(matches_model(token, m));
                        lemma_models_push(tokens@, models, token, m);
                        lemma_lex_advance_emit(content, models, st1, lex_state_of(tokenizer), m);
                        lemma_tokens_wf_push(content, tokens@, token);
                        models = models.push(m);
                    }
                    tokens.push(token);
                },
                Err(e) => {
                    return Err(e);
                },
            }
            continue;
        }

        if is_terminator(&tokenizer) {
            let ghost st1 = lex_state_of(tokenizer);
            match consume_terminator(&mut tokenizer) {
                Ok(token) => {
                    proof {
                        lemma_kind_separator(content, token, Separator::Terminator);
                        lemma_step_terminator(content, st1);
                        let m = model_at(
                            content,
                            st1,
                            st1.i + 1,
                            TokenType::Separator(Separator::Terminator),
                            content.subrange(st1.i, st1.i + 1),
                        );
                        assert(matches_model(token, m));
                        lemma_models_push(tokens@, models, token, m);
                        lemma_lex_advance_emit(content, models, st1, lex_state_of(tokenizer), m);
                        lemma_tokens_wf_push(content, tokens@, token);
                        models = models.push(m);
                    }
                    tokens.push(token);
                },
                Err(e) => {
                    return Err(e);
                },
            }
            continue;
        }

        if is_period(&tokenizer) {
            let ghost st1 = lex_state_of(tokenizer);
            match consume_period(&mut tokenizer) {
                Ok(token) => {
                    proof {
                        lemma_kind_separator(content, token, Separator::Period);
                        lemma_step_period(content, st1);
                        let m = model_at(
                            content,
                            st1,
                            st1.i + 1,
                            TokenType::Separator(Separator::Period),
                            content.subrange(st1.i, st1.i + 1),
                        );
                        assert(matches_model(token, m));
                        lemma_models_push(tokens@, models, token, m);
                        lemma_lex_advance_emit(content, models, st1, lex_state_of(tokenizer), m);
                        lemma_tokens_wf_push(content, tokens@, token);
                        models = models.push(m);
                    }
                    tokens.push(token);
                },
                Err(e) => {
                    return Err(e);
                },
            }
            continue;
        }

        if is_comma(&tokenizer) {
            let ghost st1 = lex_state_of(tokenizer);
            match consume_comma(&mut tokenizer) {
                Ok(token) => {
                    proof {
                        lemma_kind_separator(content, token, Separator::Comma);
                        lemma_step_comma(content, st1);
                        let m = model_at(
                            content,
                            st1,
                            st1.i + 1,
                            TokenType::Separator(Separator::Comma),
                            content.subrange(st1.i, st1.i + 1),
                        );
                        assert(matches_model(token, m));
                        lemma_models_push(tokens@, models, token, m);
                        lemma_lex_advance_emit(content, models, st1, lex_state_of(tokenizer), m);
                        lemma_tokens_wf_push(content, tokens@, token);
                        models = models.push(m);
                    }
                    tokens.push(token);
                },
                Err(e) => {
                    return Err(e);
                },
            }
            continue;
        }

        if is_parenthesis(&tokenizer) {
            let ghost st1 = lex_state_of(tokenizer);
            match consume_parenthesis(&mut tokenizer) {
                Ok(token) => {
                    proof {
                        lemma_kind_separator(content, token, Separator::Parenthesis);
                        lemma_step_parenthesis(content, st1);
                        let m = model_at(
                            content,
                            st1,
                            st1.i + 1,
                            TokenType::Separator(Separator::Parenthesis),
                            content.subrange(st1.i, st1.i + 1),
                        );
                        assert(matches_model(token, m));
                        lemma_models_push(tokens@, models, token, m);
                        lemma_lex_advance_emit(content, models, st1, lex_state_of(tokenizer), m);
                        lemma_tokens_wf_push(content, tokens@, token);
                        models = models.push(m);
                    }
                    tokens.push(token);
                },
                Err(e) => {
                    return Err(e);
                },
            }
            continue;
        }

        if is_curly_brace(&tokenizer) {
            let ghost st1 = lex_state_of(tokenizer);
            match consume_curly_brace(&mut tokenizer) {
                Ok(token) => {
                    proof {
                        lemma_kind_separator(content, token, Separator::CurlyBrace);
                        lemma_step_curly_brace(content, st1);
                        let m = model_at(
                            content,
                            st1,
                            st1.i + 1,
                            TokenType::Separator(Separator::CurlyBrace),
                            content.subrange(st1.i, st1.i + 1),
                        );
                        assert(matches_model(token, m));
                        lemma_models_push(tokens@, models, token, m);
                        lemma_lex_advance_emit(content, models, st1, lex_state_of(tokenizer), m);
                        lemma_tokens_wf_push(content, tokens@, token);
                        models = models.push(m);
                    }
                    tokens.push(token);
                },
                Err(e) => {
                    return Err(e);
                },
            }
            continue;
        }

        if is_number(&tokenizer) {
            let ghost st1 = lex_state_of(tokenizer);
            proof {
                lemma_scan_number_bounds(content, tokenizer.index as int);
            }
            match consume_number(&mut tokenizer) {
                Ok(token) => {
                    proof {
                        lemma_kind_number(content, token);
                        lemma_step_number(content, st1);
                        let m = model_at(
                            content,
                            st1,
                            scan_number(content, st1.i),
                            TokenType::Literal(Literal::Number),
                            content.subrange(st1.i, scan_number(content, st1.i)),
                        );
                        assert(matches_model(token, m));
                        lemma_models_push(tokens@, models, token, m);
                        lemma_lex_advance_emit(content, models, st1, lex_state_of(tokenizer), m);
                        lemma_tokens_wf_push(content, tokens@, token);
                        models = models.push(m);
                    }
                    tokens.push(token);
                },
                Err(e) => {
                    return Err(e);
                },
            }
            continue;
        }

        if is_identifier(&tokenizer) {
            let ghost st1 = lex_state_of(tokenizer);
            proof {
                lemma_scan_identifier_bounds(content, tokenizer.index as int);
            }
            match consume_identifier(&mut tokenizer) {
                Ok(token) => {
                    proof {
                        lemma_kind_identifier(content, token);
                        lemma_step_identifier(content, st1);
                        let m = model_at(
                            content,
                            st1,
                            scan_identifier(content, st1.i),
                            TokenType::Identifier,
                            content.subrange(st1.i, scan_identifier(content, st1.i)),
                        );
                        assert(matches_model(token, m));
                        lemma_models_push(tokens@, models, token, m);
                        lemma_lex_advance_emit(content, models, st1, lex_state_of(tokenizer), m);
                        lemma_tokens_wf_push(content, tokens@, token);
                        models = models.push(m);
                    }
                    tokens.push(token);
                },
                Err(e) => {
                    return Err(e);
                },
            }
            continue;
        }

        if is_string(&tokenizer) {
            let ghost st1 = lex_state_of(tokenizer);
            proof {
                lemma_scan_string_bounds(
                    content,
                    content[tokenizer.index as int],
                    tokenizer.index + 1,
                );
            }
            match consume_string(&mut tokenizer) {
                Ok(token) => {
                    proof {
                        lemma_kind_string(content, token);
                        lemma_step_string(content, st1);
                        let e = scan_string(content, content[st1.i], st1.i + 1)->Ok_0;
                        let m = model_at(
                            content,
                            st1,
                            e + 1,
                            TokenType::Literal(Literal::String),
                            string_payload(content, st1.i + 1, e),
                        );
                        assert(matches_model(token, m));
                        lemma_models_push(tokens@, models, token, m);
                        lemma_lex_advance_emit(content, models, st1, lex_state_of(tokenizer), m);
                        lemma_tokens_wf_push(content, tokens@, token);
                        models = models.push(m);
                    }
                    tokens.push(token);
                },
                Err(e) => {
                    proof {
                        lemma_step_string(content, st1);
                        lemma_lex_fail(
                            content,
                            models,
                            st1,
                            TokenErrorType::UnterminatedStringLiteral,
                            e.index as int,
                        );
                    }
                    return Err(e);
                },
            }
            continue;
        }

        if let Ok(operator) = find_operator(&tokenizer) {
            let ghost st1 = lex_state_of(tokenizer);
            match consume_operator(&mut tokenizer, operator) {
                Ok(token) => {
                    proof {
                        lemma_kind_operator(content, token);
                        lemma_step_operator(content, st1);
                        let m = model_at(
                            content,
                            st1,
                            st1.i + operator@.len(),
                            TokenType::Operator,
                            operator@,
                        );
                        assert(matches_model(token, m));
                        lemma_models_push(tokens@, models, token, m);
                        lemma_lex_advance_emit(content, models, st1, lex_state_of(tokenizer), m);
                        lemma_tokens_wf_push(content, tokens@, token);
                        models = models.push(m);
                    }
                    tokens.push(token);
                },
                Err(e) => {
                    return Err(e);
                },
            }
            continue;
        }

        let ghost st1 = lex_state_of(tokenizer);
        proof {
            lemma_step_unmatched(content, st1);
            lemma_lex_fail(content, models, st1, TokenErrorType::UnexpectedToken, st1.i);
        }
        return Err(
            TokenizeError {
                error_type: TokenErrorType::UnexpectedToken,
                index: tokenizer.get_current_index(),
            },
        );
    }

    proof {
        assert(spec_tokenize(content, lex_state_of(tokenizer)) == Ok::<Seq<TokenModel>, LexFail>(
            Seq::empty(),
        ));
        assert(models + Seq::<TokenModel>::empty() =~= models);
    }

    return Ok(tokens);
}

} // verus!
