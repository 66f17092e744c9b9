use vstd::prelude::*;

use crate::ast::nodes::expression_statement::Expression;
use crate::ast::nodes::AstNode;
use crate::ast::parsers::block_statements::{
    closed_brace_tok, is_closed_block_statement, is_open_block_statement, open_brace_tok,
    parse_block_statement,
};
use crate::ast::parsers::expression_statements::{
    is_expression_statement, lone_identifier_statement_at, lone_literal_statement_at,
    parse_expression_statement, statement_step,
};
use crate::ast::parsers::util::string_is_char;
use crate::ast::{AstErrorType, AstParseError, Program};
use crate::tokenizer::{Separator, Token, TokenType};

verus! {

/// The token cursor: the token sequence of one parse and an index into it,
/// with lookahead, backtracking and the automatic-semicolon test.
#[derive(Debug)]
pub struct AstParser<'a> {
    pub index: usize,
    pub tokens: &'a Vec<Token>,
}

/// From `i` to the end of the input, the tokens form a chain of
/// single-token statements (each optionally followed by its terminator).
pub open spec fn lone_statement_run(tokens: Seq<Token>, i: int) -> bool
    decreases tokens.len() - i
        via lone_statement_run_decreases
{
    if i >= tokens.len() {
        i == tokens.len()
    } else if lone_literal_statement_at(tokens, i) || lone_identifier_statement_at(tokens, i) {
        lone_statement_run(tokens, i + statement_step(tokens, i))
    } else {
        false
    }
}

#[via_fn]
proof fn lone_statement_run_decreases(tokens: Seq<Token>, i: int) {
}

/// How many statements such a chain holds.
pub open spec fn lone_statement_run_count(tokens: Seq<Token>, i: int) -> int
    decreases tokens.len() - i
        via lone_statement_run_count_decreases
{
    if i >= tokens.len() {
        0
    } else if lone_literal_statement_at(tokens, i) || lone_identifier_statement_at(tokens, i) {
        1 + lone_statement_run_count(tokens, i + statement_step(tokens, i))
    } else {
        0
    }
}

#[via_fn]
proof fn lone_statement_run_count_decreases(tokens: Seq<Token>, i: int) {
}

/// The statement node a single-token statement at `i` parses to: an
/// expression statement holding exactly the literal or identifier built
/// from that token, spanning it.
pub open spec fn lone_statement_node(n: AstNode, tokens: Seq<Token>, i: int) -> bool {
    &&& n matches AstNode::ExpressionStatement(es) && es.range == tokens[i].range && (match es.expression {
        Expression::Literal(le) => lone_literal_statement_at(tokens, i) && le.value.value@
            == tokens[i].value@ && le.value.raw@ == tokens[i].raw_value@,
        Expression::Identifier(ie) => lone_identifier_statement_at(tokens, i)
            && ie.identifier.name@ == tokens[i].value@,
        _ => false,
    })
}

/// The statements of `body` are exactly the single-token statements of the
/// chain running from `from` to `to`, in source order.
pub open spec fn lone_statements_match(
    body: Seq<AstNode>,
    tokens: Seq<Token>,
    from: int,
    to: int,
) -> bool
    decreases
            (if from <= to {
                to - from
            } else {
                0
            })
        via lone_statements_match_decreases
{
    if from >= to {
        body.len() == 0 && from == to
    } else {
        &&& body.len() > 0
        &&& lone_statement_node(body[0], tokens, from)
        &&& lone_statements_match(body.drop_first(), tokens, from + statement_step(tokens, from), to)
    }
}

#[via_fn]
proof fn lone_statements_match_decreases(body: Seq<AstNode>, tokens: Seq<Token>, from: int, to: int) {
}

/// Appending the statement of the next chain position extends a matching
/// body.
proof fn lemma_lone_statements_match_snoc(
    body: Seq<AstNode>,
    tokens: Seq<Token>,
    from: int,
    to: int,
    n: AstNode,
)
    requires
        lone_statements_match(body, tokens, from, to),
        lone_statement_node(n, tokens, to),
        from <= to,
    ensures
        lone_statements_match(body.push(n), tokens, from, to + statement_step(tokens, to)),
    decreases to - from,
{
    if from >= to {
        assert(body.push(n).drop_first() =~= Seq::<AstNode>::empty());
        assert(body.push(n)[0] == n);
        assert(lone_statements_match(
            body.push(n).drop_first(),
            tokens,
            from + statement_step(tokens, from),
            to + statement_step(tokens, to),
        ));
    } else {
        assert(body.push(n)[0] == body[0]);
        assert(body.push(n).drop_first() =~= body.drop_first().push(n));
        lemma_lone_statements_match_snoc(
            body.drop_first(),
            tokens,
            from + statement_step(tokens, from),
            to,
            n,
        );
    }
}

/// A block's whole contents stand at `i` as one single-token statement,
/// with the closing brace right after it.
pub open spec fn block_single_statement_at(tokens: Seq<Token>, i: int) -> bool {
    &&& (lone_literal_statement_at(tokens, i) || lone_identifier_statement_at(tokens, i))
    &&& i + statement_step(tokens, i) < tokens.len()
    &&& closed_brace_tok(tokens[i + statement_step(tokens, i)])
}

/// A semicolon may be inserted between token `i` and token `i + 1`: they are
/// separated by a line break, or the offending token is a closing brace.
pub open spec fn spec_asi(tokens: Seq<Token>, i: int) -> bool {
    &&& 0 <= i
    &&& i + 1 < tokens.len()
    &&& ({
        ||| tokens[i].loc.end.line != tokens[i + 1].loc.start.line
        ||| (tokens[i + 1].token_type == TokenType::Separator(Separator::CurlyBrace) && tokens[i
            + 1].raw_value@ == seq!['}'])
    })
}

impl<'a> AstParser<'a> {
    /// The cursor may overshoot the end by at most one committed end token.
    pub open spec fn wf(self) -> bool {
        &&& self.tokens@.len() + 2 <= usize::MAX
        &&& self.index <= self.tokens@.len() + 1
    }

    /// The tokens this cursor walks over.
    pub open spec fn toks(self) -> Seq<Token> {
        self.tokens@
    }

    /// The same cursor moved to `new_index`.
    pub open spec fn advanced(self, new_index: usize) -> AstParser<'a> {
        AstParser { index: new_index, ..self }
    }

    pub fn new(tokens: &'a Vec<Token>) -> (p: AstParser<'a>)
        requires
            tokens@.len() + 2 <= usize::MAX,
        ensures
            p.wf(),
            p.toks() == tokens@,
            p.index == 0,
    {
        AstParser { index: 0, tokens }
    }

    pub fn has_tokens(&self) -> (r: bool)
        ensures
            r == (self.index < self.toks().len()),
    {
        self.token().is_some()
    }

    pub fn token(&self) -> (r: Option<&'a Token>)
        ensures
            match r {
                Some(t) => self.index < self.toks().len() && *t == self.toks()[self.index as int],
                None => self.index >= self.toks().len(),
            },
    {
        if self.index < self.tokens.len() {
            Some(&self.tokens[self.index])
        } else {
            None
        }
    }

    pub fn peek(&self) -> (r: Option<&'a Token>)
        requires
            self.index + 1 <= usize::MAX,
        ensures
            match r {
                Some(t) => self.index + 1 < self.toks().len() && *t == self.toks()[self.index + 1],
                None => self.index + 1 >= self.toks().len(),
            },
    {
        if self.index + 1 < self.tokens.len() {
            Some(&self.tokens[self.index + 1])
        } else {
            None
        }
    }

    pub fn peek_forward(&self, distance: usize) -> (r: Option<&'a Token>)
        requires
            self.index + distance <= usize::MAX,
        ensures
            match r {
                Some(t) => self.index + distance < self.toks().len() && *t == self.toks()[self.index
                    + distance],
                None => self.index + distance >= self.toks().len(),
            },
    {
        if self.index + distance < self.tokens.len() {
            Some(&self.tokens[self.index + distance])
        } else {
            None
        }
    }

    pub fn peek_back(&self) -> (r: Option<&'a Token>)
        requires
            self.index >= 1,
        ensures
            match r {
                Some(t) => self.index - 1 < self.toks().len() && *t == self.toks()[self.index - 1],
                None => self.index - 1 >= self.toks().len(),
            },
    {
        if self.index - 1 < self.tokens.len() {
            Some(&self.tokens[self.index - 1])
        } else {
            None
        }
    }

    /// Read-only lookahead at an absolute token index.
    pub fn token_at(&self, index: usize) -> (r: Option<&'a Token>)
        ensures
            match r {
                Some(t) => index < self.toks().len() && *t == self.toks()[index as int],
                None => index >= self.toks().len(),
            },
    {
        if index < self.tokens.len() {
            Some(&self.tokens[index])
        } else {
            None
        }
    }

    /// Retreats one position.
    pub fn walk_back(&mut self)
        requires
            old(self).wf(),
            old(self).index >= 1,
        ensures
            final(self).wf(),
            *final(self) == old(self).advanced((old(self).index - 1) as usize),
    {
        self.index = self.index - 1;
    }

    pub fn get_current_index(&self) -> (r: usize)
        ensures
            r == self.index,
    {
        return self.index;
    }

    /// Returns the current token (or none at the end) and advances.
    pub fn consume(&mut self) -> (r: Option<&'a Token>)
        requires
            old(self).wf(),
            old(self).index <= old(self).toks().len(),
        ensures
            final(self).wf(),
            *final(self) == old(self).advanced((old(self).index + 1) as usize),
            match r {
                Some(t) => old(self).index < old(self).toks().len() && *t == old(self).toks()[old(
                    self,
                ).index as int],
                None => old(self).index >= old(self).toks().len(),
            },
    {
        let value = if self.index < self.tokens.len() {
            Some(&self.tokens[self.index])
        } else {
            None
        };

        self.index = self.index + 1;

        return value;
    }

    /// Advances by `delta` positions at once, committing a match that a probe
    /// found.
    pub fn consume_range(&mut self, delta: usize)
        requires
            old(self).wf(),
            old(self).index + delta <= old(self).toks().len() + 1,
        ensures
            final(self).wf(),
            *final(self) == old(self).advanced((old(self).index + delta) as usize),
    {
        self.index = self.index + delta;
    }

    /// Advances without returning the token.
    pub fn next(&mut self)
        requires
            old(self).wf(),
            old(self).index <= old(self).toks().len(),
        ensures
            final(self).wf(),
            *final(self) == old(self).advanced((old(self).index + 1) as usize),
    {
        self.index = self.index + 1;
    }

    /// The automatic semicolon insertion probe: a statement may end after
    /// token `index` when the next token starts on a different line, or is a
    /// closing curly brace. (The ECMA rule about a `)` that would close a
    /// do-while is deliberately not implemented.)
    pub fn can_insert_automatic_semicolon(&self, index: usize) -> (r: bool)
        requires
            self.wf(),
        ensures
            r == spec_asi(self.toks(), index as int),
    {
        let current_token = self.token_at(index);

        if current_token.is_none() {
            return false;
        }

        let offending_token = self.token_at(index + 1);

        if offending_token.is_none() {
            return false;
        }

        let current_token = current_token.unwrap();
        let offending_token = offending_token.unwrap();

        let offending_token_is_on_a_different_line = current_token.loc.end.line
            != offending_token.loc.start.line;

        let offending_token_is_closing_bracket = match offending_token.token_type {
            TokenType::Separator(Separator::CurlyBrace) => string_is_char(
                &offending_token.raw_value,
                '}',
            ),
            _ => false,
        };

        offending_token_is_on_a_different_line || offending_token_is_closing_bracket
    }

    /// One statement: an expression statement, or a fatal `UnexpectedToken`
    /// when no expression form applies at the cursor.
    fn parse(&mut self) -> (r: Result<AstNode, AstParseError>)
        requires
            old(self).wf(),
        ensures
            final(self).wf(),
            final(self).toks() == old(self).toks(),
            r is Ok ==> old(self).index < final(self).index <= final(self).toks().len(),
            r matches Ok(node) ==> node is ExpressionStatement,
            lone_literal_statement_at(old(self).toks(), old(self).index as int)
                || lone_identifier_statement_at(old(self).toks(), old(self).index as int) ==> (
            r matches Ok(node) && lone_statement_node(node, old(self).toks(), old(self).index as int)
                && final(self).index == old(self).index + statement_step(
                old(self).toks(),
                old(self).index as int,
            )),
            r matches Err(e) ==> *final(self) == *old(self) && e.error_type
                == AstErrorType::UnexpectedToken,
    {
        if is_expression_statement(self) {
            let expression_statement = match parse_expression_statement(self) {
                Ok(es) => es,
                Err(e) => {
                    return Err(e);
                },
            };
            return Ok(AstNode::ExpressionStatement(expression_statement));
        }

        return Err(
            AstParseError {
                index: self.get_current_index(),
                error_type: AstErrorType::UnexpectedToken,
            },
        );
    }

    /// The program grammar: while tokens remain, a block statement or an
    /// expression statement; a closing brace at top level is a fatal error,
    /// reported exactly where it stands. On success the whole input has been
    /// consumed and the body holds only expression and block statements.
    pub fn parse_program(&mut self) -> (r: Result<Vec<AstNode>, AstParseError>)
        requires
            old(self).wf(),
            old(self).index <= old(self).toks().len(),
        ensures
            final(self).wf(),
            final(self).toks() == old(self).toks(),
            r matches Ok(body) ==> final(self).index == final(self).toks().len() && body@.len()
                <= final(self).toks().len(),
            r matches Ok(body) ==> forall|j: int|
                0 <= j < body@.len() ==> (#[trigger] body@[j]) is ExpressionStatement || body@[j]
                    is BlockStatement,
            old(self).index == old(self).toks().len() ==> (r matches Ok(body) && body@.len() == 0),
            old(self).index < old(self).toks().len() && closed_brace_tok(
                old(self).toks()[old(self).index as int],
            ) ==> (r matches Err(e) && e.error_type == AstErrorType::UnexpectedToken && e.index
                == old(self).index),
            lone_statement_run(old(self).toks(), old(self).index as int) ==> (r matches Ok(body)
                && body@.len() == lone_statement_run_count(old(self).toks(), old(self).index as int)
                && lone_statements_match(
                body@,
                old(self).toks(),
                old(self).index as int,
                old(self).toks().len() as int,
            )),
            r matches Err(e) ==> e.error_type != AstErrorType::UnexpectedTokenStart,
    {
        let mut body: Vec<AstNode> = Vec::new();

        while self.has_tokens()
            invariant
                self.wf(),
                self.toks() == old(self).toks(),
                old(self).index <= self.index <= self.toks().len(),
                body@.len() <= self.index,
                body@.len() <= self.toks().len(),
                old(self).index == old(self).toks().len() ==> body@.len() == 0,
                forall|j: int|
                    0 <= j < body@.len() ==> (#[trigger] body@[j]) is ExpressionStatement
                        || body@[j] is BlockStatement,
                old(self).index < old(self).toks().len() && closed_brace_tok(
                    old(self).toks()[old(self).index as int],
                ) ==> self.index == old(self).index,
                lone_statement_run(old(self).toks(), old(self).index as int) ==> (
                lone_statement_run(self.toks(), self.index as int) && body@.len()
                    + lone_statement_run_count(self.toks(), self.index as int)
                    == lone_statement_run_count(old(self).toks(), old(self).index as int)
                    && lone_statements_match(
                    body@,
                    self.toks(),
                    old(self).index as int,
                    self.index as int,
                )),
            decreases self.toks().len() + 1 - self.index,
        {
            if is_closed_block_statement(self) {
                return Err(
                    AstParseError {
                        index: self.get_current_index(),
                        error_type: AstErrorType::UnexpectedToken,
                    },
                );
            }

            if is_open_block_statement(self) {
                let block = match parse_block_statement(self) {
                    Ok(b) => b,
                    Err(e) => {
                        return Err(e);
                    },
                };
                let block_statement = AstNode::BlockStatement(block);

                proof {
                    assert forall|j: int| 0 <= j < body@.push(block_statement).len() implies (
                    #[trigger] body@.push(block_statement)[j]) is ExpressionStatement || body@.push(
                        block_statement,
                    )[j] is BlockStatement by {
                        if j < body@.len() {
                            assert(body@.push(block_statement)[j] == body@[j]);
                        }
                    }
                }
                body.push(block_statement);
                continue;
            }

            let ghost pre = *self;
            let node = match self.parse() {
                Ok(n) => n,
                Err(e) => {
                    return Err(e);
                },
            };
            proof {
                assert forall|j: int| 0 <= j < body@.push(node).len() implies (
                #[trigger] body@.push(node)[j]) is ExpressionStatement || body@.push(node)[j]
                    is BlockStatement by {
                    if j < body@.len() {
                        assert(body@.push(node)[j] == body@[j]);
                    }
                }
                if lone_statement_run(old(self).toks(), old(self).index as int) {
                    lemma_lone_statements_match_snoc(
                        body@,
                        self.toks(),
                        old(self).index as int,
                        pre.index as int,
                        node,
                    );
                }
            }
            body.push(node);
        }

        Ok(body)
    }

    /// The inside of a block: statements until the matching closing brace,
    /// which is consumed; nested blocks are kept as nested block statements.
    /// Running out of input first is an `UnexpectedEndOfInput`.
    pub fn parse_block(&mut self) -> (r: Result<Vec<AstNode>, AstParseError>)
        requires
            old(self).wf(),
        ensures
            final(self).wf(),
            final(self).toks() == old(self).toks(),
            r is Ok ==> old(self).index < final(self).index <= final(self).toks().len()
                && closed_brace_tok(final(self).toks()[final(self).index - 1]),
            r matches Ok(body) ==> forall|j: int|
                0 <= j < body@.len() ==> (#[trigger] body@[j]) is ExpressionStatement || body@[j]
                    is BlockStatement,
            old(self).index >= old(self).toks().len() ==> (r matches Err(e) && e.error_type
                == AstErrorType::UnexpectedEndOfInput && e.index == old(self).index),
            old(self).index < old(self).toks().len() && closed_brace_tok(
                old(self).toks()[old(self).index as int],
            ) ==> (r matches Ok(body) && body@.len() == 0 && final(self).index == old(self).index
                + 1),
            block_single_statement_at(old(self).toks(), old(self).index as int) ==> (r matches Ok(
                body,
            ) && body@.len() == 1 && final(self).index == old(self).index + statement_step(
                old(self).toks(),
                old(self).index as int,
            ) + 1),
            old(self).index <= old(self).toks().len() && lone_statement_run(
                old(self).toks(),
                old(self).index as int,
            ) ==> (r matches Err(e) && e.error_type == AstErrorType::UnexpectedEndOfInput
                && e.index == old(self).toks().len()),
            old(self).index + 2 < old(self).toks().len() && open_brace_tok(
                old(self).toks()[old(self).index as int],
            ) && closed_brace_tok(old(self).toks()[old(self).index + 1]) && closed_brace_tok(
                old(self).toks()[old(self).index + 2],
            ) ==> (r matches Ok(body) && body@.len() == 1 && body@[0] is BlockStatement
                && final(self).index == old(self).index + 3),
            r matches Err(e) ==> e.error_type != AstErrorType::UnexpectedTokenStart,
        decreases old(self).toks().len() - old(self).index, 1int,
    {
        let mut body: Vec<AstNode> = Vec::new();

        while self.has_tokens()
            invariant
                self.wf(),
                self.toks() == old(self).toks(),
                old(self).index <= self.index,
                forall|j: int|
                    0 <= j < body@.len() ==> (#[trigger] body@[j]) is ExpressionStatement
                        || body@[j] is BlockStatement,
                old(self).index >= old(self).toks().len() ==> self.index == old(self).index,
                old(self).index < old(self).toks().len() && closed_brace_tok(
                    old(self).toks()[old(self).index as int],
                ) ==> self.index == old(self).index && body@.len() == 0,
                block_single_statement_at(old(self).toks(), old(self).index as int) ==> ((
                self.index == old(self).index && body@.len() == 0) || (self.index == old(
                    self,
                ).index + statement_step(old(self).toks(), old(self).index as int) && body@.len()
                    == 1)),
                old(self).index <= old(self).toks().len() && lone_statement_run(
                    old(self).toks(),
                    old(self).index as int,
                ) ==> (self.index <= self.toks().len() && lone_statement_run(
                    self.toks(),
                    self.index as int,
                )),
                old(self).index + 2 < old(self).toks().len() && open_brace_tok(
                    old(self).toks()[old(self).index as int],
                ) && closed_brace_tok(old(self).toks()[old(self).index + 1]) && closed_brace_tok(
                    old(self).toks()[old(self).index + 2],
                ) ==> ((self.index == old(self).index && body@.len() == 0) || (self.index == old(
                    self,
                ).index + 2 && body@.len() == 1 && body@[0] is BlockStatement)),
            decreases self.toks().len() + 1 - self.index,
        {
            if is_closed_block_statement(self) {
                proof {
                    assert(seq!['{'][0] == '{');
                    assert(seq!['}'][0] == '}');
                }
                self.next();
                return Ok(body);
            }

            if is_open_block_statement(self) {
                let block = match parse_block_statement(self) {
                    Ok(b) => b,
                    Err(e) => {
                        return Err(e);
                    },
                };
                let block_statement = AstNode::BlockStatement(block);
                proof {
                    assert forall|j: int| 0 <= j < body@.push(block_statement).len() implies (
                    #[trigger] body@.push(block_statement)[j]) is ExpressionStatement || body@.push(
                        block_statement,
                    )[j] is BlockStatement by {
                        if j < body@.len() {
                            assert(body@.push(block_statement)[j] == body@[j]);
                        }
                    }
                }
                body.push(block_statement);
                continue;
            }

            let node = match self.parse() {
                Ok(n) => n,
                Err(e) => {
                    return Err(e);
                },
            };
            proof {
                assert forall|j: int| 0 <= j < body@.push(node).len() implies (
                #[trigger] body@.push(node)[j]) is ExpressionStatement || body@.push(node)[j]
                    is BlockStatement by {
                    if j < body@.len() {
                        assert(body@.push(node)[j] == body@[j]);
                    }
                }
            }
            body.push(node);
        }

        return Err(
            AstParseError {
                index: self.get_current_index(),
                error_type: AstErrorType::UnexpectedEndOfInput,
            },
        );
    }
}

/// The parser entry point: drives the program grammar over the whole token
/// sequence. An empty input yields an empty program; the speculative
/// "does not start here" signal never surfaces as an error.
pub fn parse(tokens: &Vec<Token>) -> (r: Result<Program, AstParseError>)
    requires
        tokens@.len() + 2 <= usize::MAX,
    ensures
        tokens@.len() == 0 ==> (r matches Ok(p) && p.body@.len() == 0),
        r matches Ok(p) ==> p.body@.len() <= tokens@.len(),
        r matches Ok(p) ==> forall|j: int|
            0 <= j < p.body@.len() ==> (#[trigger] p.body@[j]) is ExpressionStatement || p.body@[j]
                is BlockStatement,
        tokens@.len() > 0 && closed_brace_tok(tokens@[0]) ==> (r matches Err(e) && e.error_type
            == AstErrorType::UnexpectedToken && e.index == 0),
        lone_statement_run(tokens@, 0) ==> (r matches Ok(p) && p.body@.len()
            == lone_statement_run_count(tokens@, 0) && lone_statements_match(
            p.body@,
            tokens@,
            0,
            tokens@.len() as int,
        )),
        r matches Err(e) ==> e.error_type != AstErrorType::UnexpectedTokenStart,
{
    let mut parser = AstParser::new(tokens);
    let mut program = Program::default();

    program.body = match parser.parse_program() {
        Ok(b) => b,
        Err(e) => {
            return Err(e);
        },
    };

    Ok(program)
}

} // verus!
