use vstd::prelude::*;

verus! {

/// The characters of the Unicode `White_Space` class.
pub open spec fn whitespace_char(c: char) -> bool {
    ||| c == '\u{0009}'
    ||| c == '\u{000A}'
    ||| c == '\u{000B}'
    ||| c == '\u{000C}'
    ||| c == '\u{000D}'
    ||| c == ' '
    ||| c == '\u{0085}'
    ||| c == '\u{00A0}'
    ||| c == '\u{1680}'
    ||| c == '\u{2000}'
    ||| c == '\u{2001}'
    ||| c == '\u{2002}'
    ||| c == '\u{2003}'
    ||| c == '\u{2004}'
    ||| c == '\u{2005}'
    ||| c == '\u{2006}'
    ||| c == '\u{2007}'
    ||| c == '\u{2008}'
    ||| c == '\u{2009}'
    ||| c == '\u{200A}'
    ||| c == '\u{2028}'
    ||| c == '\u{2029}'
    ||| c == '\u{202F}'
    ||| c == '\u{205F}'
    ||| c == '\u{3000}'
}

/// An ASCII letter: the only characters identifiers are made of.
pub open spec fn identifier_char(c: char) -> bool {
    ('a' <= c && c <= 'z') || ('A' <= c && c <= 'Z')
}

/// An ASCII decimal digit.
pub open spec fn number_char(c: char) -> bool {
    '0' <= c && c <= '9'
}

/// The line-break character.
pub open spec fn eol_char(c: char) -> bool {
    c == '\n'
}

/// A character that can begin an operator lexeme.
pub open spec fn operator_char(c: char) -> bool {
    ||| c == '='
    ||| c == '>'
    ||| c == '<'
    ||| c == '!'
    ||| c == '+'
    ||| c == '-'
    ||| c == '/'
    ||| c == '*'
    ||| c == '%'
    ||| c == '&'
    ||| c == '|'
    ||| c == '^'
    ||| c == '~'
}

/// The escape character inside string literals.
pub open spec fn escape_char(c: char) -> bool {
    c == '\\'
}

/// A quote character that can delimit a string literal.
pub open spec fn string_delimiter_char(c: char) -> bool {
    c == '\'' || c == '\"'
}

pub fn is_whitespace(token: &char) -> (r: bool)
    ensures
        r == whitespace_char(*token),
{
    let c = *token;
    c == '\u{0009}' || c == '\u{000A}' || c == '\u{000B}' || c == '\u{000C}' || c == '\u{000D}'
        || c == ' ' || c == '\u{0085}' || c == '\u{00A0}' || c == '\u{1680}' || c == '\u{2000}'
        || c == '\u{2001}' || c == '\u{2002}' || c == '\u{2003}' || c == '\u{2004}' || c
        == '\u{2005}' || c == '\u{2006}' || c == '\u{2007}' || c == '\u{2008}' || c == '\u{2009}'
        || c == '\u{200A}' || c == '\u{2028}' || c == '\u{2029}' || c == '\u{202F}' || c
        == '\u{205F}' || c == '\u{3000}'
}

pub fn is_identifier(token: &char) -> (r: bool)
    ensures
        r == identifier_char(*token),
{
    ('a' <= *token && *token <= 'z') || ('A' <= *token && *token <= 'Z')
}

pub fn is_number(token: &char) -> (r: bool)
    ensures
        r == number_char(*token),
{
    '0' <= *token && *token <= '9'
}

pub fn is_separator(token: &char) -> (r: bool)
    ensures
        r == (*token == '.' || *token == ','),
{
    *token == '.' || *token == ','
}

pub fn is_period(token: &char) -> (r: bool)
    ensures
        r == (*token == '.'),
{
    *token == '.'
}

pub fn is_comma(token: &char) -> (r: bool)
    ensures
        r == (*token == ','),
{
    *token == ','
}

pub fn is_parenthesis(token: &char) -> (r: bool)
    ensures
        r == (*token == '(' || *token == ')'),
{
    *token == '(' || *token == ')'
}

pub fn is_terminator(token: &char) -> (r: bool)
    ensures
        r == (*token == ';'),
{
    *token == ';'
}

pub fn is_curly_brace(token: &char) -> (r: bool)
    ensures
        r == (*token == '{' || *token == '}'),
{
    *token == '{' || *token == '}'
}

pub fn is_eol(token: &char) -> (r: bool)
    ensures
        r == eol_char(*token),
{
    *token == '\n'
}

pub fn is_operator(token: &char) -> (r: bool)
    ensures
        r == operator_char(*token),
{
    match *token {
        '=' | '>' | '<' | '!' | '+' | '-' | '/' | '*' | '%' | '&' | '|' | '^' | '~' => true,
        _ => false,
    }
}

pub fn is_escape_char(token: &char) -> (r: bool)
    ensures
        r == escape_char(*token),
{
    *token == '\\'
}

pub fn is_string_delimiter(token: &char) -> (r: bool)
    ensures
        r == string_delimiter_char(*token),
{
    *token == '\'' || *token == '\"'
}

} // verus!

