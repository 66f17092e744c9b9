use vstd::prelude::*;
use vstd::string::StrSliceExecFns;

use crate::ast::nodes::Identifier;
use crate::ast::parser::AstParser;
use crate::ast::{AstErrorType, AstParseError};
use crate::tokenizer::{Separator, Token, TokenType};

verus! {

/// The string holds exactly the one character `c`.
pub fn string_is_char(s: &String, c: char) -> (r: bool)
    ensures
        r == (s@ == seq![c]),
{
    let st: &str = s.as_str();
    if st.unicode_len() != 1 {
        proof {
            assert(seq![c].len() == 1);
        }
        return false;
    }
    let c0 = st.get_char(0);
    proof {
        if c0 == c {
            assert(s@ =~= seq![c]);
        } else {
            assert(s@ != seq![c]) by {
                if s@ == seq![c] {
                    assert(s@[0] == c);
                }
            }
        }
    }
    c0 == c
}

/// The string holds exactly the characters of `w`.
pub fn string_eq_str(s: &String, w: &str) -> (r: bool)
    ensures
        r == (s@ == w@),
{
    let a: &str = s.as_str();
    let n: usize = a.unicode_len();
    if n != w.unicode_len() {
        return false;
    }

    let mut i: usize = 0;
    while i < n
        invariant
            n == s@.len(),
            n == w@.len(),
            a@ == s@,
            i <= n,
            s@.subrange(0, i as int) == w@.subrange(0, i as int),
        decreases n - i,
    {
        let c1 = a.get_char(i);
        let c2 = w.get_char(i);
        if c1 != c2 {
            proof {
                assert(s@ != w@) by {
                    if s@ == w@ {
                        assert(s@[i as int] == w@[i as int]);
                    }
                }
            }
            return false;
        }
        proof {
            assert(s@.subrange(0, i + 1) =~= w@.subrange(0, i + 1)) by {
                assert forall|k: int| 0 <= k < i + 1 implies #[trigger] s@.subrange(0, i + 1)[k]
                    == w@.subrange(0, i + 1)[k] by {
                    if k < i {
                        assert(s@.subrange(0, i as int)[k] == w@.subrange(0, i as int)[k]);
                    }
                }
            }
        }
        i = i + 1;
    }

    proof {
        assert(s@ =~= s@.subrange(0, n as int));
        assert(w@ =~= w@.subrange(0, n as int));
    }
    true
}

/// The token at `index` is the opening bracket of a parameter list.
pub open spec fn open_param_tok(t: Token) -> bool {
    t.token_type == TokenType::Separator(Separator::Parenthesis) && t.value@ == seq!['(']
}

/// The token at `index` is the comma between two parameters.
pub open spec fn param_separator_tok(t: Token) -> bool {
    t.token_type == TokenType::Separator(Separator::Comma)
}

/// The token at `index` is the closing bracket of a parameter list.
pub open spec fn closed_param_tok(t: Token) -> bool {
    t.token_type == TokenType::Separator(Separator::Parenthesis) && t.value@ == seq![')']
}

/// The token is the statement terminator `;`.
pub open spec fn terminator_tok(t: Token) -> bool {
    t.token_type == TokenType::Separator(Separator::Terminator)
}

pub fn is_open_param_bracket(parser: &AstParser, index: usize) -> (r: bool)
    ensures
        r == (index < parser.toks().len() && open_param_tok(parser.toks()[index as int])),
{
    match parser.token_at(index) {
        Some(token) => {
            let is_type = matches!(token.token_type, TokenType::Separator(Separator::Parenthesis));
            let is_value = string_is_char(&token.value, '(');

            is_type && is_value
        },
        None => false,
    }
}

pub fn is_param_separator(parser: &AstParser, index: usize) -> (r: bool)
    ensures
        r == (index < parser.toks().len() && param_separator_tok(parser.toks()[index as int])),
{
    match parser.token_at(index) {
        Some(token) => matches!(token.token_type, TokenType::Separator(Separator::Comma)),
        None => false,
    }
}

pub fn is_closed_param_bracket(parser: &AstParser, index: usize) -> (r: bool)
    ensures
        r == (index < parser.toks().len() && closed_param_tok(parser.toks()[index as int])),
{
    match parser.token_at(index) {
        Some(token) => {
            let is_type = matches!(token.token_type, TokenType::Separator(Separator::Parenthesis));
            let is_value = string_is_char(&token.value, ')');

            is_type && is_value
        },
        None => false,
    }
}

/// Consumes the function's name: the identifier token at the cursor.
pub fn parse_function_name(parser: &mut AstParser) -> (r: Result<Identifier, AstParseError>)
    requires
        old(parser).wf(),
    ensures
        final(parser).wf(),
        final(parser).toks() == old(parser).toks(),
        if old(parser).index < old(parser).toks().len() && old(parser).toks()[old(
            parser,
        ).index as int].token_type == TokenType::Identifier {
            &&& *final(parser) == old(parser).advanced((old(parser).index + 1) as usize)
            &&& r matches Ok(id) && id.name@ == old(parser).toks()[old(
                parser,
            ).index as int].value@ && id.range == old(parser).toks()[old(
                parser,
            ).index as int].range
        } else {
            &&& *final(parser) == *old(parser)
            &&& r matches Err(e) && e.error_type == AstErrorType::UnexpectedToken && e.index == old(
                parser,
            ).index
        },
{
    match parser.token() {
        Some(token) => {
            if matches!(token.token_type, TokenType::Identifier) {
                let identifier = Identifier::from(token);
                parser.next();
                return Ok(identifier);
            }

            Err(
                AstParseError {
                    error_type: AstErrorType::UnexpectedToken,
                    index: parser.get_current_index(),
                },
            )
        },
        None => Err(
            AstParseError {
                error_type: AstErrorType::UnexpectedToken,
                index: parser.get_current_index(),
            },
        ),
    }
}

pub fn is_semicolon_terminator(parser: &AstParser) -> (r: bool)
    ensures
        r == (parser.index < parser.toks().len() && terminator_tok(
            parser.toks()[parser.index as int],
        )),
{
    match parser.token() {
        Some(token) => {
            matches!(token.token_type, TokenType::Separator(Separator::Terminator))
        },
        None => false,
    }
}

} // verus!
