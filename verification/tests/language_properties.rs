use jsparse::ast;
use jsparse::ast::nodes::expression_statement::Expression;
use jsparse::ast::nodes::AstNode;
use jsparse::ast::parser::AstParser;
use jsparse::ast::AstErrorType;
use jsparse::tokenizer;
use jsparse::tokenizer::TokenErrorType;

#[test]
fn retokenizing_a_prefix_reproduces_the_leading_tokens() {
    let content = String::from("{ call(a, 12); 'str' } true + null >>= x\ny");

    let tokens = tokenizer::parse(&content).unwrap();
    let chars: Vec<char> = content.chars().collect();

    for n in 1..tokens.len() + 1 {
        let k = tokens.get(n - 1).unwrap().range.1;
        let prefix: String = chars[0..k].iter().collect();

        let again = tokenizer::parse(&prefix).unwrap();

        assert_eq!(again.len(), n);
        for i in 0..n {
            assert_eq!(again.get(i).unwrap(), tokens.get(i).unwrap());
        }
    }
}

#[test]
fn parsing_twice_gives_structurally_identical_programs() {
    let content = String::from("{ 123 } 'a';\ncall(x, y)\nfoo + bar;");

    let tokens_a = tokenizer::parse(&content).unwrap();
    let tokens_b = tokenizer::parse(&content).unwrap();
    assert_eq!(tokens_a, tokens_b);

    let program_a = ast::parse(&tokens_a).unwrap();
    let program_b = ast::parse(&tokens_b).unwrap();

    assert_eq!(program_a, program_b);
}

#[test]
fn line_break_separates_two_identifier_statements() {
    let content = String::from("x\ny");

    let tokens = tokenizer::parse(&content).unwrap();
    assert_eq!(tokens.len(), 2);
    assert_eq!(tokens.get(0).unwrap().range, (0, 1));
    assert_eq!(tokens.get(1).unwrap().range, (2, 3));

    let program = ast::parse(&tokens).unwrap();

    assert_eq!(program.body.len(), 2);
    for statement in program.body.iter() {
        match statement {
            AstNode::ExpressionStatement(es) => match &es.expression {
                Expression::Identifier(_) => (),
                _ => panic!("expected an identifier expression"),
            },
            _ => panic!("expected an expression statement"),
        }
    }
}

#[test]
fn three_chained_literal_statements_parse_in_order() {
    let content = String::from("'Foobar';'Bar';'Foo';");

    let tokens = tokenizer::parse(&content).unwrap();
    let mut parser = AstParser::new(&tokens);

    let body = parser.parse_program().unwrap();

    assert_eq!(body.len(), 3);
    assert_eq!(parser.get_current_index(), 6);

    let expected = vec!["Foobar", "Bar", "Foo"];
    for (i, statement) in body.iter().enumerate() {
        match statement {
            AstNode::ExpressionStatement(es) => match &es.expression {
                Expression::Literal(le) => assert_eq!(le.value.value, expected[i]),
                _ => panic!("expected a literal expression"),
            },
            _ => panic!("expected an expression statement"),
        }
    }
}

#[test]
fn call_without_arguments_parses_as_call_expression() {
    let content = String::from("call()");

    let tokens = tokenizer::parse(&content).unwrap();
    let program = ast::parse(&tokens).unwrap();

    assert_eq!(program.body.len(), 1);
    match program.body.get(0).unwrap() {
        AstNode::ExpressionStatement(es) => match &es.expression {
            Expression::CallExpression(ce) => {
                assert_eq!(ce.callee.name, "call");
                assert_eq!(ce.arguments.len(), 0);
            },
            _ => panic!("expected a call expression"),
        },
        _ => panic!("expected an expression statement"),
    }
}

#[test]
fn call_with_nested_call_parses_three_arguments() {
    let content = String::from("call('123', 123, call())");

    let tokens = tokenizer::parse(&content).unwrap();
    let program = ast::parse(&tokens).unwrap();

    assert_eq!(program.body.len(), 1);
    match program.body.get(0).unwrap() {
        AstNode::ExpressionStatement(es) => match &es.expression {
            Expression::CallExpression(ce) => {
                assert_eq!(ce.callee.name, "call");
                assert_eq!(ce.arguments.len(), 3);
                match ce.arguments.get(2).unwrap() {
                    Expression::CallExpression(inner) => {
                        assert_eq!(inner.callee.name, "call");
                        assert_eq!(inner.arguments.len(), 0);
                    },
                    _ => panic!("expected a nested call expression"),
                }
            },
            _ => panic!("expected a call expression"),
        },
        _ => panic!("expected an expression statement"),
    }
}

#[test]
fn unterminated_string_is_rejected_by_the_lexer() {
    let content = String::from("\"Foo");

    let err = tokenizer::parse(&content).unwrap_err();

    assert_eq!(err.error_type, TokenErrorType::UnterminatedStringLiteral);
    assert_eq!(err.index, 4);
}

#[test]
fn unterminated_block_is_an_unexpected_end_of_input() {
    let content = String::from("{ { 123 }");

    let tokens = tokenizer::parse(&content).unwrap();
    let err = ast::parse(&tokens).unwrap_err();

    assert_eq!(err.error_type, AstErrorType::UnexpectedEndOfInput);
}

#[test]
fn binary_expressions_fold_left_to_right() {
    let content = String::from("112233 - 321 + 123");

    let tokens = tokenizer::parse(&content).unwrap();
    let program = ast::parse(&tokens).unwrap();

    assert_eq!(program.body.len(), 1);
    let binary = match program.body.get(0).unwrap() {
        AstNode::ExpressionStatement(es) => match &es.expression {
            Expression::BinaryExpression(be) => be,
            _ => panic!("expected a binary expression"),
        },
        _ => panic!("expected an expression statement"),
    };

    // ((112233 - 321) + 123)
    assert_eq!(binary.operator, "+");
    let left = match binary.left.as_ref() {
        Expression::BinaryExpression(be) => be,
        _ => panic!("expected the accumulated left operand"),
    };
    assert_eq!(left.operator, "-");
    match left.left.as_ref() {
        Expression::Literal(le) => assert_eq!(le.value.raw, "112233"),
        _ => panic!("expected a literal"),
    }
    match left.right.as_ref() {
        Expression::Literal(le) => assert_eq!(le.value.raw, "321"),
        _ => panic!("expected a literal"),
    }
    match binary.right.as_ref() {
        Expression::Literal(le) => assert_eq!(le.value.raw, "123"),
        _ => panic!("expected a literal"),
    }
}

#[test]
fn top_level_closing_brace_is_an_unexpected_token() {
    let content = String::from("} 123;");

    let tokens = tokenizer::parse(&content).unwrap();
    let err = ast::parse(&tokens).unwrap_err();

    assert_eq!(err.error_type, AstErrorType::UnexpectedToken);
    assert_eq!(err.index, 0);
}

#[test]
fn adjacent_identifiers_on_one_line_are_rejected() {
    let content = String::from("foobar foo");

    let tokens = tokenizer::parse(&content).unwrap();
    let err = ast::parse(&tokens).unwrap_err();

    assert_eq!(err.error_type, AstErrorType::UnexpectedToken);
}

#[test]
fn empty_token_sequence_parses_to_an_empty_program() {
    let content = String::from("");

    let tokens = tokenizer::parse(&content).unwrap();
    let program = ast::parse(&tokens).unwrap();

    assert_eq!(program.body.len(), 0);
}

#[test]
fn closing_brace_ends_a_statement_inside_a_block() {
    let content = String::from("{ x }");

    let tokens = tokenizer::parse(&content).unwrap();
    let program = ast::parse(&tokens).unwrap();

    assert_eq!(program.body.len(), 1);
    match program.body.get(0).unwrap() {
        AstNode::BlockStatement(bs) => {
            assert_eq!(bs.body.len(), 1);
            assert_eq!(bs.range, (0, 5));
        },
        _ => panic!("expected a block statement"),
    }
}

#[test]
fn asi_probe_sees_line_breaks_and_closing_braces() {
    let content = String::from("{ a\nb }");

    let tokens = tokenizer::parse(&content).unwrap();
    let parser = AstParser::new(&tokens);

    // between `a` and `b`: a line break
    assert_eq!(parser.can_insert_automatic_semicolon(1), true);
    // between `b` and `}`: a closing brace
    assert_eq!(parser.can_insert_automatic_semicolon(2), true);
    // between `{` and `a`: same line, no closing brace
    assert_eq!(parser.can_insert_automatic_semicolon(0), false);
}

#[test]
fn string_statement_range_covers_its_quotes() {
    let content = String::from("'Foobar';");

    let tokens = tokenizer::parse(&content).unwrap();
    let program = ast::parse(&tokens).unwrap();

    assert_eq!(program.body.len(), 1);
    match program.body.get(0).unwrap() {
        AstNode::ExpressionStatement(es) => {
            assert_eq!(es.range, (0, 8));
        },
        _ => panic!("expected an expression statement"),
    }
}

#[test]
fn empty_block_parses_to_an_empty_block_statement() {
    let content = String::from("{ }");

    let tokens = tokenizer::parse(&content).unwrap();
    let program = ast::parse(&tokens).unwrap();

    assert_eq!(program.body.len(), 1);
    match program.body.get(0).unwrap() {
        AstNode::BlockStatement(bs) => assert_eq!(bs.body.len(), 0),
        _ => panic!("expected a block statement"),
    }
}

#[test]
fn lone_terminator_is_rejected() {
    let content = String::from(";");

    let tokens = tokenizer::parse(&content).unwrap();
    let err = ast::parse(&tokens).unwrap_err();

    assert_eq!(err.error_type, AstErrorType::UnexpectedToken);
}

#[test]
fn statement_list_mixes_blocks_calls_and_literals() {
    let content = String::from("{ 123 } 'a';\ncall(x, y);\nfoo + bar;");

    let tokens = tokenizer::parse(&content).unwrap();
    let program = ast::parse(&tokens).unwrap();

    assert_eq!(program.body.len(), 4);
}

#[test]
fn call_statement_may_end_at_a_line_break() {
    let content = String::from("call(x, y)\nfoo + bar;");

    let tokens = tokenizer::parse(&content).unwrap();
    let program = ast::parse(&tokens).unwrap();

    assert_eq!(program.body.len(), 2);
}

#[test]
fn binary_statement_range_covers_its_operands() {
    let content = String::from("112233 - 321 + 123;");

    let tokens = tokenizer::parse(&content).unwrap();
    let program = ast::parse(&tokens).unwrap();

    match program.body.get(0).unwrap() {
        AstNode::ExpressionStatement(es) => assert_eq!(es.range, (0, 18)),
        _ => panic!("expected an expression statement"),
    }
}

#[test]
fn call_statement_range_covers_the_whole_call() {
    let content = String::from("call('123', 123, call());");

    let tokens = tokenizer::parse(&content).unwrap();
    let program = ast::parse(&tokens).unwrap();

    match program.body.get(0).unwrap() {
        AstNode::ExpressionStatement(es) => assert_eq!(es.range, (0, 24)),
        _ => panic!("expected an expression statement"),
    }
}

#[test]
fn sequence_statement_range_covers_its_expressions() {
    let content = String::from("'foo', 'bar';");

    let tokens = tokenizer::parse(&content).unwrap();
    let parser = jsparse::ast::parser::AstParser::new(&tokens);

    let result = jsparse::ast::parsers::expression_statements::sequence_expression::find(&parser)
        .unwrap()
        .unwrap();

    assert_eq!(result.value.range, (0, 12));
}

#[test]
fn longer_operator_chains_fold_left_to_right() {
    let content = String::from("1 + 2 - 3 + 4;");

    let tokens = tokenizer::parse(&content).unwrap();
    let program = ast::parse(&tokens).unwrap();

    let outer = match program.body.get(0).unwrap() {
        AstNode::ExpressionStatement(es) => match &es.expression {
            Expression::BinaryExpression(be) => be,
            _ => panic!("expected a binary expression"),
        },
        _ => panic!("expected an expression statement"),
    };

    // (((1 + 2) - 3) + 4)
    assert_eq!(outer.operator, "+");
    let mid = match outer.left.as_ref() {
        Expression::BinaryExpression(be) => be,
        _ => panic!("expected a nested fold"),
    };
    assert_eq!(mid.operator, "-");
    let inner = match mid.left.as_ref() {
        Expression::BinaryExpression(be) => be,
        _ => panic!("expected the innermost pair"),
    };
    assert_eq!(inner.operator, "+");
    match inner.left.as_ref() {
        Expression::Literal(le) => assert_eq!(le.value.raw, "1"),
        _ => panic!("expected a literal"),
    }
    match outer.right.as_ref() {
        Expression::Literal(le) => assert_eq!(le.value.raw, "4"),
        _ => panic!("expected a literal"),
    }
}

#[test]
fn statement_chain_without_closing_brace_is_an_unexpected_end_of_input() {
    let content = String::from("{ 'a'; x; 123");

    let tokens = tokenizer::parse(&content).unwrap();
    let err = ast::parse(&tokens).unwrap_err();

    assert_eq!(err.error_type, AstErrorType::UnexpectedEndOfInput);
}

#[test]
fn nested_empty_block_is_kept_in_the_outer_body() {
    let content = String::from("{ { } }");

    let tokens = tokenizer::parse(&content).unwrap();
    let program = ast::parse(&tokens).unwrap();

    match program.body.get(0).unwrap() {
        AstNode::BlockStatement(outer) => {
            assert_eq!(outer.body.len(), 1);
            match outer.body.get(0).unwrap() {
                AstNode::BlockStatement(inner) => assert_eq!(inner.body.len(), 0),
                _ => panic!("expected the nested block to be kept"),
            }
        },
        _ => panic!("expected a block statement"),
    }
}

#[test]
fn flat_call_statement_keeps_its_arguments_in_order() {
    let content = String::from("foobar('Foobar', 123, id);");

    let tokens = tokenizer::parse(&content).unwrap();
    let program = ast::parse(&tokens).unwrap();

    match program.body.get(0).unwrap() {
        AstNode::ExpressionStatement(es) => match &es.expression {
            Expression::CallExpression(ce) => {
                assert_eq!(ce.callee.name, "foobar");
                assert_eq!(ce.arguments.len(), 3);
                match ce.arguments.get(0).unwrap() {
                    Expression::Literal(le) => assert_eq!(le.value.value, "Foobar"),
                    _ => panic!("expected a literal argument"),
                }
                match ce.arguments.get(2).unwrap() {
                    Expression::Identifier(ie) => assert_eq!(ie.identifier.name, "id"),
                    _ => panic!("expected an identifier argument"),
                }
            },
            _ => panic!("expected a call expression"),
        },
        _ => panic!("expected an expression statement"),
    }
}
