use vstd::prelude::*;

pub mod consumers;
pub mod lexer_model;
pub mod tokenizer;
pub mod util;

verus! {

/// The lexical category of a token.
#[derive(Debug, PartialEq, Eq, Structural, Clone, Copy)]
pub enum TokenType {
    Keyword,
    Identifier,
    Literal(Literal),
    Separator(Separator),
    Operator,
}

/// The literal sub-category of a token.
#[derive(Debug, PartialEq, Eq, Structural, Clone, Copy)]
pub enum Literal {
    Number,
    String,
    Boolean,
    Null,
}

/// The separator sub-category of a token.
#[derive(Debug, PartialEq, Eq, Structural, Clone, Copy)]
pub enum Separator {
    Period,
    Comma,
    Parenthesis,
    CurlyBrace,
    Terminator,
}

/// A line/column position inside the source text. Lines start at 1,
/// columns count characters from the most recently recorded line start.
#[derive(Debug, PartialEq, Eq, Structural, Clone, Copy)]
pub struct FileLocationPos {
    pub line: usize,
    pub column: usize,
}

/// The start and end positions of a token in line/column form.
#[derive(Debug, PartialEq, Eq, Structural, Clone, Copy)]
pub struct FileLocation {
    pub start: FileLocationPos,
    pub end: FileLocationPos,
}

/// A classified lexical unit. `raw_value` is the exact source slice covered
/// by `range`; `value` is the semantic payload (for strings, the unescaped
/// contents without the quotes).
#[derive(Debug, PartialEq)]
pub struct Token {
    pub token_type: TokenType,
    pub value: String,
    pub raw_value: String,
    pub range: (usize, usize),
    pub loc: FileLocation,
}

/// The two ways tokenization can fail.
#[derive(Debug, PartialEq, Eq, Structural, Clone, Copy)]
pub enum TokenErrorType {
    UnexpectedToken,
    UnterminatedStringLiteral,
}

/// A tokenization failure, tagged with the character offset at which it was
/// detected.
#[derive(Debug)]
pub struct TokenizeError {
    pub error_type: TokenErrorType,
    pub index: usize,
}

/// Tokenizes the whole source text; see `tokenizer::parse`. The result is
/// exactly what the specification-level tokenizer prescribes.
pub fn parse(file_content: &String) -> (r: Result<Vec<Token>, TokenizeError>)
    requires
        file_content@.len() + 2 <= usize::MAX,
    ensures
        r matches Ok(tokens) ==> tokens_wf(file_content@, tokens@),
        r matches Ok(tokens) ==> (lexer_model::spec_tokenize(
            file_content@,
            lexer_model::init_lex_state(),
        ) matches Ok(ms) && lexer_model::matches_models(tokens@, ms)),
        r matches Err(e) ==> e.index <= file_content@.len(),
        r matches Err(e) ==> lexer_model::spec_tokenize(
            file_content@,
            lexer_model::init_lex_state(),
        ) == Err::<Seq<lexer_model::TokenModel>, lexer_model::LexFail>(
            (lexer_model::LexFail { kind: e.error_type, at: e.index as int }),
        ),
{
    tokenizer::parse(file_content)
}

/// Structural well-formedness of one token against the source it came from:
/// a non-empty half-open range inside the source whose exact slice is the
/// token's `raw_value`.
pub open spec fn token_covers(content: Seq<char>, t: Token) -> bool {
    &&& t.range.0 < t.range.1 <= content.len()
    &&& t.raw_value@ == content.subrange(t.range.0 as int, t.range.1 as int)
}

/// What each lexical category promises about a token's `value`, `raw_value`
/// and range, in terms of the source text it was cut from.
#[verifier::opaque]
pub open spec fn token_kind_ok(content: Seq<char>, t: Token) -> bool {
    match t.token_type {
        TokenType::Keyword => t.value@ == t.raw_value@ && consumers::keywords::is_keyword_text(
            t.raw_value@,
        ),
        TokenType::Identifier => t.value@ == t.raw_value@ && t.range.1
            == consumers::identifier::scan_identifier(content, t.range.0 as int)
            && util::identifier_char(content[t.range.0 as int]),
        TokenType::Literal(Literal::Number) => t.value@ == t.raw_value@ && t.range.1
            == consumers::number::scan_number(content, t.range.0 as int) && util::number_char(
            content[t.range.0 as int],
        ),
        TokenType::Literal(Literal::Boolean) => t.value@ == t.raw_value@ && (t.raw_value@
            == "true"@ || t.raw_value@ == "false"@),
        TokenType::Literal(Literal::Null) => t.value@ == Seq::<char>::empty() && t.raw_value@
            == "null"@,
        TokenType::Literal(Literal::String) => util::string_delimiter_char(
            content[t.range.0 as int],
        ) && consumers::string::scan_string(
            content,
            content[t.range.0 as int],
            t.range.0 + 1,
        ) == Ok::<int, int>(t.range.1 - 1) && t.value@ == consumers::string::string_payload(
            content,
            t.range.0 + 1,
            t.range.1 - 1,
        ),
        TokenType::Separator(Separator::Period) => t.value@ == t.raw_value@ && t.range.1
            == t.range.0 + 1 && content[t.range.0 as int] == '.',
        TokenType::Separator(Separator::Comma) => t.value@ == t.raw_value@ && t.range.1 == t.range.0
            + 1 && content[t.range.0 as int] == ',',
        TokenType::Separator(Separator::Terminator) => t.value@ == t.raw_value@ && t.range.1
            == t.range.0 + 1 && content[t.range.0 as int] == ';',
        TokenType::Separator(Separator::Parenthesis) => t.value@ == t.raw_value@ && t.range.1
            == t.range.0 + 1 && (content[t.range.0 as int] == '(' || content[t.range.0 as int]
            == ')'),
        TokenType::Separator(Separator::CurlyBrace) => t.value@ == t.raw_value@ && t.range.1
            == t.range.0 + 1 && (content[t.range.0 as int] == '{' || content[t.range.0 as int]
            == '}'),
        TokenType::Operator => t.value@ == t.raw_value@ && consumers::operator::is_operator_text(
            t.raw_value@,
        ),
    }
}

/// Each of the following lemmas packages what one classifier establishes
/// into `token_kind_ok`, so that the driver need not unfold it.
pub proof fn lemma_kind_keyword(content: Seq<char>, t: Token)
    requires
        t.token_type == TokenType::Keyword,
        t.value@ == t.raw_value@,
        consumers::keywords::is_keyword_text(t.raw_value@),
    ensures
        token_kind_ok(content, t),
{
    reveal(token_kind_ok);
}

pub proof fn lemma_kind_identifier(content: Seq<char>, t: Token)
    requires
        t.token_type == TokenType::Identifier,
        t.value@ == t.raw_value@,
        t.range.1 == consumers::identifier::scan_identifier(content, t.range.0 as int),
        util::identifier_char(content[t.range.0 as int]),
    ensures
        token_kind_ok(content, t),
{
    reveal(token_kind_ok);
}

pub proof fn lemma_kind_number(content: Seq<char>, t: Token)
    requires
        t.token_type == TokenType::Literal(Literal::Number),
        t.value@ == t.raw_value@,
        t.range.1 == consumers::number::scan_number(content, t.range.0 as int),
        util::number_char(content[t.range.0 as int]),
    ensures
        token_kind_ok(content, t),
{
    reveal(token_kind_ok);
}

pub proof fn lemma_kind_boolean(content: Seq<char>, t: Token)
    requires
        t.token_type == TokenType::Literal(Literal::Boolean),
        t.value@ == t.raw_value@,
        t.raw_value@ == "true"@ || t.raw_value@ == "false"@,
    ensures
        token_kind_ok(content, t),
{
    reveal(token_kind_ok);
}

pub proof fn lemma_kind_null(content: Seq<char>, t: Token)
    requires
        t.token_type == TokenType::Literal(Literal::Null),
        t.value@ == Seq::<char>::empty(),
        t.raw_value@ == "null"@,
    ensures
        token_kind_ok(content, t),
{
    reveal(token_kind_ok);
}

pub proof fn lemma_kind_string(content: Seq<char>, t: Token)
    requires
        t.token_type == TokenType::Literal(Literal::String),
        util::string_delimiter_char(content[t.range.0 as int]),
        consumers::string::scan_string(content, content[t.range.0 as int], t.range.0 + 1)
            == Ok::<int, int>(t.range.1 - 1),
        t.value@ == consumers::string::string_payload(content, t.range.0 + 1, t.range.1 - 1),
    ensures
        token_kind_ok(content, t),
{
    reveal(token_kind_ok);
}

pub proof fn lemma_kind_separator(content: Seq<char>, t: Token, kind: Separator)
    requires
        t.token_type == TokenType::Separator(kind),
        t.value@ == t.raw_value@,
        t.range.1 == t.range.0 + 1,
        match kind {
            Separator::Period => content[t.range.0 as int] == '.',
            Separator::Comma => content[t.range.0 as int] == ',',
            Separator::Terminator => content[t.range.0 as int] == ';',
            Separator::Parenthesis => content[t.range.0 as int] == '(' || content[t.range.0 as int]
                == ')',
            Separator::CurlyBrace => content[t.range.0 as int] == '{' || content[t.range.0 as int]
                == '}',
        },
    ensures
        token_kind_ok(content, t),
{
    reveal(token_kind_ok);
}

pub proof fn lemma_kind_operator(content: Seq<char>, t: Token)
    requires
        t.token_type == TokenType::Operator,
        t.value@ == t.raw_value@,
        consumers::operator::is_operator_text(t.raw_value@),
    ensures
        token_kind_ok(content, t),
{
    reveal(token_kind_ok);
}

/// Well-formedness of a whole token sequence: every token covers its slice,
/// carries what its category promises, and successive ranges are
/// non-overlapping and non-decreasing.
pub open spec fn tokens_wf(content: Seq<char>, tokens: Seq<Token>) -> bool {
    &&& forall|i: int|
        0 <= i < tokens.len() ==> token_covers(content, #[trigger] tokens[i]) && token_kind_ok(
            content,
            tokens[i],
        )
    &&& forall|i: int, j: int|
        0 <= i < j < tokens.len() ==> (#[trigger] tokens[i]).range.1 <= (#[trigger] tokens[j]).range.0
}

/// The source text rebuilt from a token sequence, starting at `from`: the
/// skipped gap before each token, then the token's raw text, and finally
/// whatever follows the last token.
pub open spec fn reconstruct(content: Seq<char>, tokens: Seq<Token>, from: int) -> Seq<char>
    decreases tokens.len(),
{
    if tokens.len() == 0 {
        content.subrange(from, content.len() as int)
    } else {
        content.subrange(from, tokens[0].range.0 as int) + tokens[0].raw_value@ + reconstruct(
            content,
            tokens.drop_first(),
            tokens[0].range.1 as int,
        )
    }
}

proof fn lemma_reconstruct_from(content: Seq<char>, tokens: Seq<Token>, from: int)
    requires
        tokens_wf(content, tokens),
        0 <= from <= content.len(),
        tokens.len() > 0 ==> from <= tokens[0].range.0,
    ensures
        reconstruct(content, tokens, from) == content.subrange(from, content.len() as int),
    decreases tokens.len(),
{
    if tokens.len() > 0 {
        let t = tokens[0];
        let rest = tokens.drop_first();
        assert(token_covers(content, t));
        assert(tokens_wf(content, rest)) by {
            assert forall|i: int| 0 <= i < rest.len() implies token_covers(
                content,
                #[trigger] rest[i],
            ) && token_kind_ok(content, rest[i]) by {
                assert(rest[i] == tokens[i + 1]);
            }
            assert forall|i: int, j: int| 0 <= i < j < rest.len() implies (
            #[trigger] rest[i]).range.1 <= (#[trigger] rest[j]).range.0 by {
                assert(rest[i] == tokens[i + 1]);
                assert(rest[j] == tokens[j + 1]);
            }
        }
        if rest.len() > 0 {
            assert(rest[0] == tokens[1]);
        }
        lemma_reconstruct_from(content, rest, t.range.1 as int);
        assert(content.subrange(from, t.range.0 as int) + t.raw_value@ + content.subrange(
            t.range.1 as int,
            content.len() as int,
        ) =~= content.subrange(from, content.len() as int));
    }
}

/// Law: for every source accepted by the tokenizer, concatenating each
/// token's raw text in order, interleaved with the skipped gaps at their
/// original offsets, rebuilds the source text exactly.
pub proof fn lemma_source_reconstruction(content: Seq<char>, tokens: Seq<Token>)
    requires
        tokens_wf(content, tokens),
    ensures
        reconstruct(content, tokens, 0) == content,
{
    if tokens.len() > 0 {
        assert(token_covers(content, tokens[0]));
    }
    lemma_reconstruct_from(content, tokens, 0);
    assert(content.subrange(0, content.len() as int) =~= content);
}

} // verus!
