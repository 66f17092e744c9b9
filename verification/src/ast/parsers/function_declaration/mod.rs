use vstd::prelude::*;

use crate::ast::nodes::block_statement::BlockStatement;
use crate::ast::nodes::expression_statement::Expression;
use crate::ast::nodes::function_declaration::FunctionDeclaration;
use crate::ast::nodes::Identifier;
use crate::ast::parser::AstParser;
use crate::ast::parsers::block_statements::{
    closed_brace_tok, open_brace_tok, parse_block_statement,
};
use crate::ast::parsers::expression_statements::identifier_expression::parse_identifier_expression_statement;
use crate::ast::parsers::util::{
    closed_param_tok, is_closed_param_bracket, is_open_param_bracket, is_param_separator,
    open_param_tok, param_separator_tok, parse_function_name, string_eq_str,
};
use crate::ast::{AstErrorType, AstParseError};
use crate::tokenizer::{Token, TokenType};

use super::{get_end_position_of_previous_token, get_start_position};

verus! {

/// The token opens a function declaration: the keyword `function`.
pub open spec fn function_keyword_tok(t: Token) -> bool {
    t.token_type == TokenType::Keyword && t.value@ == "function"@
}

/// `identifier (',' identifier)* ')'` stands at `i`: a well-formed,
/// non-empty parameter list with its closing bracket.
pub open spec fn param_list_at(tokens: Seq<Token>, i: int) -> bool
    decreases tokens.len() - i,
{
    if !(0 <= i < tokens.len() && tokens[i].token_type == TokenType::Identifier) {
        false
    } else if i + 1 < tokens.len() && closed_param_tok(tokens[i + 1]) {
        true
    } else if i + 1 < tokens.len() && param_separator_tok(tokens[i + 1]) {
        param_list_at(tokens, i + 2)
    } else {
        false
    }
}

/// How many parameters such a list holds.
pub open spec fn param_list_count(tokens: Seq<Token>, i: int) -> int
    decreases tokens.len() - i,
{
    if !(0 <= i < tokens.len() && tokens[i].token_type == TokenType::Identifier) {
        0
    } else if i + 1 < tokens.len() && closed_param_tok(tokens[i + 1]) {
        1
    } else if i + 1 < tokens.len() && param_separator_tok(tokens[i + 1]) {
        1 + param_list_count(tokens, i + 2)
    } else {
        0
    }
}

/// The parameter node built from the identifier token `t`.
pub open spec fn param_matches(id: Identifier, t: Token) -> bool {
    id.name@ == t.value@ && id.range == t.range
}

/// `ps` are exactly the parameter identifiers standing at
/// `from, from + 2, ...` up to `to`, in source order.
pub open spec fn params_from(ps: Seq<Identifier>, tokens: Seq<Token>, from: int, to: int) -> bool
    decreases
            (if from <= to {
                to - from
            } else {
                0
            })
        via params_from_decreases
{
    if from >= to {
        ps.len() == 0 && from == to
    } else {
        &&& ps.len() > 0
        &&& 0 <= from < tokens.len()
        &&& param_matches(ps[0], tokens[from])
        &&& params_from(ps.drop_first(), tokens, from + 2, to)
    }
}

#[via_fn]
proof fn params_from_decreases(ps: Seq<Identifier>, tokens: Seq<Token>, from: int, to: int) {
}

/// Appending the parameter at the next list position extends a matching
/// list.
proof fn lemma_params_from_snoc(
    ps: Seq<Identifier>,
    tokens: Seq<Token>,
    from: int,
    to: int,
    id: Identifier,
)
    requires
        params_from(ps, tokens, from, to),
        0 <= to < tokens.len(),
        param_matches(id, tokens[to]),
        from <= to,
    ensures
        params_from(ps.push(id), tokens, from, to + 2),
    decreases
            (if from <= to {
                to - from
            } else {
                0
            }),
{
    if from >= to {
        assert(ps.push(id).drop_first() =~= Seq::<Identifier>::empty());
        assert(ps.push(id)[0] == id);
        assert(params_from(ps.push(id).drop_first(), tokens, from + 2, to + 2));
    } else {
        assert(ps.push(id)[0] == ps[0]);
        assert(ps.push(id).drop_first() =~= ps.drop_first().push(id));
        assert(params_from(ps.drop_first(), tokens, from + 2, to));
        lemma_params_from_snoc(ps.drop_first(), tokens, from + 2, to, id);
    }
}

/// A declaration with a non-empty parameter list and an empty body stands
/// at `i`: `function name ( identifier (',' identifier)* ) { }`.
pub open spec fn declaration_with_params_at(tokens: Seq<Token>, i: int) -> bool {
    &&& 0 <= i < tokens.len() && function_keyword_tok(tokens[i])
    &&& i + 1 < tokens.len() && tokens[i + 1].token_type == TokenType::Identifier
    &&& i + 2 < tokens.len() && open_param_tok(tokens[i + 2])
    &&& param_list_at(tokens, i + 3)
    &&& i + 4 + 2 * param_list_count(tokens, i + 3) < tokens.len()
    &&& open_brace_tok(tokens[i + 3 + 2 * param_list_count(tokens, i + 3)])
    &&& closed_brace_tok(tokens[i + 4 + 2 * param_list_count(tokens, i + 3)])
}

/// The smallest well-formed declaration stands at `i`:
/// `function name ( ) { }`.
pub open spec fn minimal_declaration_at(tokens: Seq<Token>, i: int) -> bool {
    &&& i + 5 < tokens.len()
    &&& function_keyword_tok(tokens[i])
    &&& tokens[i + 1].token_type == TokenType::Identifier
    &&& open_param_tok(tokens[i + 2])
    &&& closed_param_tok(tokens[i + 3])
    &&& open_brace_tok(tokens[i + 4])
    &&& closed_brace_tok(tokens[i + 5])
}

pub fn is_function_declaration(parser: &AstParser) -> (r: bool)
    ensures
        r == (parser.index < parser.toks().len() && function_keyword_tok(
            parser.toks()[parser.index as int],
        )),
{
    match parser.token() {
        Some(token) => {
            let is_type = matches!(token.token_type, TokenType::Keyword);
            let is_value = string_eq_str(&token.value, "function");

            is_type && is_value
        },
        None => false,
    }
}

fn parse_function_keyword(parser: &mut AstParser) -> (r: Result<(), AstParseError>)
    requires
        old(parser).wf(),
    ensures
        final(parser).wf(),
        final(parser).toks() == old(parser).toks(),
        if old(parser).index < old(parser).toks().len() && function_keyword_tok(
            old(parser).toks()[old(parser).index as int],
        ) {
            &&& r is Ok
            &&& *final(parser) == old(parser).advanced((old(parser).index + 1) as usize)
        } else {
            &&& r matches Err(e) && e.error_type == AstErrorType::UnexpectedToken
            &&& *final(parser) == *old(parser)
        },
{
    if !is_function_declaration(&*parser) {
        return Err(
            AstParseError {
                error_type: AstErrorType::UnexpectedToken,
                index: parser.get_current_index(),
            },
        );
    }

    parser.next();

    Ok(())
}

/// `'(' [identifier (',' identifier)*] ')'`: each parameter must be a valid
/// identifier expression; anything else between the brackets is an
/// `UnexpectedToken`.
fn parse_parameters(parser: &mut AstParser) -> (r: Result<Vec<Identifier>, AstParseError>)
    requires
        old(parser).wf(),
    ensures
        final(parser).wf(),
        final(parser).toks() == old(parser).toks(),
        r is Ok ==> old(parser).index < final(parser).index <= final(parser).toks().len(),
        old(parser).index + 1 < old(parser).toks().len() && open_param_tok(
            old(parser).toks()[old(parser).index as int],
        ) && closed_param_tok(old(parser).toks()[old(parser).index + 1]) ==> (r matches Ok(ps)
            && ps@.len() == 0 && final(parser).index == old(parser).index + 2),
        old(parser).index < old(parser).toks().len() && open_param_tok(
            old(parser).toks()[old(parser).index as int],
        ) && param_list_at(old(parser).toks(), old(parser).index + 1) ==> (r matches Ok(ps)
            && ps@.len() == param_list_count(old(parser).toks(), old(parser).index + 1)
            && params_from(
            ps@,
            old(parser).toks(),
            old(parser).index + 1,
            old(parser).index + 1 + 2 * ps@.len(),
        ) && final(parser).index == old(parser).index + 1 + 2 * ps@.len()),
        old(parser).index + 1 < old(parser).toks().len() && open_param_tok(
            old(parser).toks()[old(parser).index as int],
        ) && old(parser).toks()[old(parser).index + 1].token_type != TokenType::Identifier
            && !closed_param_tok(old(parser).toks()[old(parser).index + 1]) ==> (r matches Err(e)
            && e.error_type == AstErrorType::UnexpectedToken),
        r matches Err(e) ==> e.error_type != AstErrorType::UnexpectedTokenStart,
{
    if !is_open_param_bracket(parser, parser.get_current_index()) {
        return Err(
            AstParseError {
                error_type: AstErrorType::UnexpectedToken,
                index: parser.get_current_index(),
            },
        );
    }

    let mut params: Vec<Identifier> = Vec::new();

    // Skip opening bracket
    parser.next();

    // Exit early if we don't have any params
    if is_closed_param_bracket(parser, parser.get_current_index()) {
        parser.next();
        return Ok(params);
    }

    loop
        invariant_except_break
            old(parser).index < old(parser).toks().len() && param_list_at(
                old(parser).toks(),
                old(parser).index + 1,
            ) ==> {
                &&& parser.index == old(parser).index + 1 + 2 * params@.len()
                &&& param_list_at(parser.toks(), parser.index as int)
                &&& params_from(
                    params@,
                    parser.toks(),
                    old(parser).index + 1,
                    parser.index as int,
                )
                &&& params@.len() + param_list_count(parser.toks(), parser.index as int)
                    == param_list_count(parser.toks(), old(parser).index + 1)
            },
            old(parser).index + 1 < old(parser).toks().len()
                && old(parser).toks()[old(parser).index + 1].token_type != TokenType::Identifier
                ==> parser.index == old(parser).index + 1,
        invariant
            parser.wf(),
            parser.toks() == old(parser).toks(),
            old(parser).index < parser.index,
            !(old(parser).index + 1 < old(parser).toks().len() && open_param_tok(
                old(parser).toks()[old(parser).index as int],
            ) && closed_param_tok(old(parser).toks()[old(parser).index + 1])),
        ensures
            parser.wf(),
            parser.toks() == old(parser).toks(),
            old(parser).index < parser.index <= parser.toks().len(),
            old(parser).index < old(parser).toks().len() && param_list_at(
                old(parser).toks(),
                old(parser).index + 1,
            ) ==> {
                &&& params@.len() == param_list_count(parser.toks(), old(parser).index + 1)
                &&& params_from(
                    params@,
                    parser.toks(),
                    old(parser).index + 1,
                    old(parser).index + 1 + 2 * params@.len(),
                )
                &&& parser.index == old(parser).index + 1 + 2 * params@.len()
            },
            !(old(parser).index + 1 < old(parser).toks().len()
                && old(parser).toks()[old(parser).index + 1].token_type != TokenType::Identifier),
        decreases parser.toks().len() + 1 - parser.index,
    {
        let ghost at = parser.index as int;

        // Validate that we got an identifier expression
        let expression_statement = match parse_identifier_expression_statement(parser) {
            Ok(es) => es,
            Err(e) => {
                return Err(e);
            },
        };

        let identifier = match expression_statement.expression {
            Expression::Identifier(id) => id.identifier,
            _ => {
                return Err(
                    AstParseError {
                        error_type: AstErrorType::UnexpectedToken,
                        index: parser.get_current_index(),
                    },
                );
            },
        };

        proof {
            if old(parser).index < old(parser).toks().len() && param_list_at(
                old(parser).toks(),
                old(parser).index + 1,
            ) {
                lemma_params_from_snoc(
                    params@,
                    parser.toks(),
                    old(parser).index + 1,
                    at,
                    identifier,
                );
            }
        }
        params.push(identifier);

        // A closing bracket ends the list
        if is_closed_param_bracket(parser, parser.get_current_index()) {
            parser.next();
            break ;
        }

        // A separator announces the next parameter
        if is_param_separator(parser, parser.get_current_index()) {
            parser.next();
            continue;
        }

        return Err(
            AstParseError {
                error_type: AstErrorType::UnexpectedToken,
                index: parser.get_current_index(),
            },
        );
    }

    Ok(params)
}

fn parse_block_scope(parser: &mut AstParser) -> (r: Result<BlockStatement, AstParseError>)
    requires
        old(parser).wf(),
    ensures
        final(parser).wf(),
        final(parser).toks() == old(parser).toks(),
        r is Ok ==> old(parser).index < final(parser).index <= final(parser).toks().len(),
        old(parser).index + 1 < old(parser).toks().len() && open_brace_tok(
            old(parser).toks()[old(parser).index as int],
        ) && closed_brace_tok(old(parser).toks()[old(parser).index + 1]) ==> (r matches Ok(bs)
            && bs.body@.len() == 0 && final(parser).index == old(parser).index + 2),
        r matches Err(e) ==> e.error_type != AstErrorType::UnexpectedTokenStart,
{
    parse_block_statement(parser)
}

/// `'function' identifier '(' [identifier (',' identifier)*] ')' block`:
/// the reusable function-declaration sub-parser. Its span runs from the
/// keyword to the closing brace of the body.
pub fn parse_function_declaration(parser: &mut AstParser) -> (r: Result<
    FunctionDeclaration,
    AstParseError,
>)
    requires
        old(parser).wf(),
    ensures
        final(parser).wf(),
        final(parser).toks() == old(parser).toks(),
        r matches Ok(fd) ==> {
            &&& old(parser).index < final(parser).index <= final(parser).toks().len()
            &&& function_keyword_tok(old(parser).toks()[old(parser).index as int])
            &&& fd.range.0 == old(parser).toks()[old(parser).index as int].range.0
            &&& fd.range.1 == old(parser).toks()[final(parser).index - 1].range.1
            &&& old(parser).index + 1 < final(parser).toks().len()
            &&& old(parser).toks()[old(parser).index + 1].token_type == TokenType::Identifier
            &&& fd.id.name@ == old(parser).toks()[old(parser).index + 1].value@
            &&& fd.id.range == old(parser).toks()[old(parser).index + 1].range
        },
        minimal_declaration_at(old(parser).toks(), old(parser).index as int) ==> (r matches Ok(
            fd,
        ) && fd.params@.len() == 0 && fd.body.body@.len() == 0 && final(parser).index == old(
            parser,
        ).index + 6),
        declaration_with_params_at(old(parser).toks(), old(parser).index as int) ==> (r matches
            Ok(fd) && fd.params@.len() == param_list_count(
            old(parser).toks(),
            old(parser).index + 3,
        ) && params_from(
            fd.params@,
            old(parser).toks(),
            old(parser).index + 3,
            old(parser).index + 3 + 2 * fd.params@.len(),
        ) && fd.body.body@.len() == 0 && final(parser).index == old(parser).index + 5 + 2
            * fd.params@.len()),
        old(parser).index + 3 < old(parser).toks().len() && function_keyword_tok(
            old(parser).toks()[old(parser).index as int],
        ) && old(parser).toks()[old(parser).index + 1].token_type == TokenType::Identifier
            && open_param_tok(old(parser).toks()[old(parser).index + 2]) && old(
            parser,
        ).toks()[old(parser).index + 3].token_type != TokenType::Identifier && !closed_param_tok(
            old(parser).toks()[old(parser).index + 3],
        ) ==> (r matches Err(e) && e.error_type == AstErrorType::UnexpectedToken),
        r matches Err(e) ==> e.error_type != AstErrorType::UnexpectedTokenStart,
{
    let start = match get_start_position(parser) {
        Ok(p) => p,
        Err(e) => {
            return Err(e);
        },
    };

    // 1. Parse the function keyword
    match parse_function_keyword(parser) {
        Ok(_) => (),
        Err(e) => {
            return Err(e);
        },
    }

    // 2. Parse the function name
    let function_name = match parse_function_name(parser) {
        Ok(id) => id,
        Err(e) => {
            return Err(e);
        },
    };

    // 3. Parse the parameters
    let params = match parse_parameters(parser) {
        Ok(ps) => ps,
        Err(e) => {
            return Err(e);
        },
    };

    // 4. Parse the block scope
    let body = match parse_block_scope(parser) {
        Ok(b) => b,
        Err(e) => {
            return Err(e);
        },
    };
    let end = match get_end_position_of_previous_token(parser) {
        Ok(p) => p,
        Err(e) => {
            return Err(e);
        },
    };

    Ok(FunctionDeclaration { id: function_name, params, body, range: (start, end) })
}

} // verus!
