use jsparse::ast::nodes::expression_statement::Expression;
use jsparse::ast::parser::AstParser;
use jsparse::ast::parsers::expression_statements::binary_expression;
use jsparse::ast::parsers::expression_statements::call_expression;
use jsparse::ast::parsers::expression_statements::consume_result;
use jsparse::ast::parsers::expression_statements::identifier_expression;
use jsparse::ast::parsers::expression_statements::literal_expression;
use jsparse::ast::parsers::expression_statements::sequence_expression;
use jsparse::ast::AstErrorType;
use jsparse::tokenizer;

// binary expressions

#[test]
fn binary_operation_is_binary_expression_statement() {
    let content = String::from("123 + 123");

    let tokens = tokenizer::parse(&content).unwrap();
    let parser = AstParser::new(&tokens);

    let result = binary_expression::is_binary_expression_statement(&parser);

    assert_eq!(result, true);
}

#[test]
fn literal_is_not_a_binary_expression_statement() {
    let content = String::from("123123");

    let tokens = tokenizer::parse(&content).unwrap();
    let parser = AstParser::new(&tokens);

    let result = binary_expression::is_binary_expression_statement(&parser);

    assert_eq!(result, false);
}

#[test]
fn malformed_binary_operation_is_not_a_binary_expression_statement() {
    let content = String::from("123 + 123 -");

    let tokens = tokenizer::parse(&content).unwrap();
    let parser = AstParser::new(&tokens);

    let result = binary_expression::is_binary_expression_statement(&parser);

    assert_eq!(result, false);
}

#[test]
fn binary_operation_is_parsable_binary_operation() {
    let content = String::from("123 + 123");

    let tokens = tokenizer::parse(&content).unwrap();
    let parser = AstParser::new(&tokens);

    let result = binary_expression::find(&parser).unwrap().unwrap().value;

    let expected = match result.expression {
        Expression::BinaryExpression(e) => Some(e),
        _ => None,
    }
    .unwrap();

    let expected_left = match expected.left.as_ref() {
        Expression::Literal(e) => Some(e),
        _ => None,
    }
    .unwrap();
    let expected_right = match expected.right.as_ref() {
        Expression::Literal(e) => Some(e),
        _ => None,
    }
    .unwrap();

    assert_eq!(expected_left.value.raw, "123");
    assert_eq!(expected_right.value.raw, "123");
    assert_eq!(expected.operator, "+")
}

#[test]
fn multiple_binary_operation_is_parsable_binary_operation() {
    let content = String::from("123 + 123 - 123");

    let tokens = tokenizer::parse(&content).unwrap();
    let parser = AstParser::new(&tokens);

    let result = binary_expression::find(&parser).unwrap().unwrap().value;

    let expected = match result.expression {
        Expression::BinaryExpression(e) => Some(e),
        _ => None,
    }
    .unwrap();

    let expected_left = match expected.left.as_ref() {
        Expression::BinaryExpression(e) => Some(e),
        _ => None,
    }
    .unwrap();
    let expected_left_left = match expected_left.left.as_ref() {
        Expression::Literal(e) => Some(e),
        _ => None,
    }
    .unwrap();
    let expected_left_right = match expected_left.right.as_ref() {
        Expression::Literal(e) => Some(e),
        _ => None,
    }
    .unwrap();

    let expected_right = match expected.right.as_ref() {
        Expression::Literal(e) => Some(e),
        _ => None,
    }
    .unwrap();

    assert_eq!(expected_left_left.value.raw, "123");
    assert_eq!(expected_left.operator, "+");
    assert_eq!(expected_left_right.value.raw, "123");
    assert_eq!(expected_right.value.raw, "123");
    assert_eq!(expected.operator, "-")
}

// call expressions

#[test]
fn function_call_without_params_is_call_expression_statement() {
    let content = String::from("call()");

    let tokens = tokenizer::parse(&content).unwrap();
    let parser = AstParser::new(&tokens);

    let result = call_expression::is_call_expression_statement(&parser);

    assert_eq!(result, true);
}

#[test]
fn function_call_with_params_is_call_expression_statement() {
    let content = String::from("call('123', 123, call())");

    let tokens = tokenizer::parse(&content).unwrap();
    let parser = AstParser::new(&tokens);

    let result = call_expression::is_call_expression_statement(&parser);

    assert_eq!(result, true);
}

#[test]
fn identifier_is_not_a_call_expression_statement() {
    let content = String::from("foobar");

    let tokens = tokenizer::parse(&content).unwrap();
    let parser = AstParser::new(&tokens);

    let result = call_expression::is_call_expression_statement(&parser);

    assert_eq!(result, false);
}

#[test]
fn half_function_call_is_not_a_call_expression_statement() {
    let content = String::from("foobar(");

    let tokens = tokenizer::parse(&content).unwrap();
    let parser = AstParser::new(&tokens);

    let result = call_expression::is_call_expression_statement(&parser);

    assert_eq!(result, false);
}

#[test]
fn function_call_without_params_is_parsable_call_expression() {
    let content = String::from("call()");

    let tokens = tokenizer::parse(&content).unwrap();
    let parser = AstParser::new(&tokens);

    let result = call_expression::find(&parser).unwrap().unwrap().value;
    let call_expression = match result.expression {
        Expression::CallExpression(e) => Some(e),
        _ => None,
    }
    .unwrap();

    assert_eq!(call_expression.callee.name, "call");
    assert_eq!(call_expression.arguments.len(), 0);
}

#[test]
fn function_call_with_params_is_parsable_call_expression() {
    let content = String::from("call('123', 123, call())");

    let tokens = tokenizer::parse(&content).unwrap();
    let parser = AstParser::new(&tokens);

    let result = call_expression::find(&parser).unwrap().unwrap().value;
    let call_expression = match result.expression {
        Expression::CallExpression(e) => Some(e),
        _ => None,
    }
    .unwrap();

    assert_eq!(call_expression.callee.name, "call");
    assert_eq!(call_expression.arguments.len(), 3);
}

#[test]
fn half_function_call_is_not_a_parsable_call_expression() {
    let content = String::from("call(");

    let tokens = tokenizer::parse(&content).unwrap();
    let parser = AstParser::new(&tokens);

    let result = call_expression::find(&parser).unwrap();

    assert_eq!(result.is_none(), true);
}

// identifier expressions

#[test]
fn identifier_is_identifier_statement() {
    let content = String::from("foobar");

    let tokens = tokenizer::parse(&content).unwrap();
    let parser = AstParser::new(&tokens);

    let result = identifier_expression::is_identifier_expression_statement(&parser);

    assert_eq!(result, true);
}

#[test]
fn string_is_not_a_identifier_statement() {
    let content = String::from("'Foobar'");

    let tokens = tokenizer::parse(&content).unwrap();
    let parser = AstParser::new(&tokens);

    let result = identifier_expression::is_identifier_expression_statement(&parser);

    assert_eq!(result, false);
}

#[test]
fn number_is_not_a_identifier_statement() {
    let content = String::from("123");

    let tokens = tokenizer::parse(&content).unwrap();
    let parser = AstParser::new(&tokens);

    let result = identifier_expression::is_identifier_expression_statement(&parser);

    assert_eq!(result, false);
}

#[test]
fn identifier_is_parsable_identifier_expression() {
    let content = String::from("foobar");

    let tokens = tokenizer::parse(&content).unwrap();
    let parser = AstParser::new(&tokens);

    let result = identifier_expression::find(&parser).unwrap().unwrap().value;

    if let Expression::Identifier(expression) = result.expression {
        let identifier = expression.identifier;
        assert_eq!(identifier.range.0, 0);
        assert_eq!(identifier.range.1, 6);
        assert_eq!(identifier.name, "foobar");

        assert_eq!(parser.get_current_index(), 0);
    } else {
        panic!("Invalid return value");
    }
}

#[test]
fn multiple_wrong_separated_is_not_parsable_identifier_expression() {
    let content = String::from("foobar foo");

    let tokens = tokenizer::parse(&content).unwrap();
    let parser = AstParser::new(&tokens);

    let result = identifier_expression::find(&parser).unwrap_err();

    assert_eq!(result.error_type, AstErrorType::UnexpectedToken);
}

#[test]
fn identifier_expression_new_line_separated_strings_are_parsable_literal_expression() {
    let content = String::from("x\ny");

    let tokens = tokenizer::parse(&content).unwrap();
    let mut parser = AstParser::new(&tokens);

    let result = identifier_expression::find(&parser).unwrap().unwrap();
    consume_result(&mut parser, result);

    let result = identifier_expression::find(&parser).unwrap().unwrap().value;

    if let Expression::Identifier(expression) = result.expression {
        let identifier = expression.identifier;
        assert_eq!(identifier.range.0, 2);
        assert_eq!(identifier.range.1, 3);
        assert_eq!(identifier.name, "y");

        assert_eq!(parser.get_current_index(), 1);
    } else {
        panic!("Invalid return value");
    }
}

// literal expressions

#[test]
fn string_is_literal_expression_statement() {
    let content = String::from("'Foobar'");

    let tokens = tokenizer::parse(&content).unwrap();
    let parser = AstParser::new(&tokens);

    let result = literal_expression::is_literal_expression_statement(&parser);

    assert_eq!(result, true);
}

#[test]
fn number_is_literal_expression_statement() {
    let content = String::from("123");

    let tokens = tokenizer::parse(&content).unwrap();
    let parser = AstParser::new(&tokens);

    let result = literal_expression::is_literal_expression_statement(&parser);

    assert_eq!(result, true);
}

#[test]
fn null_is_literal_expression_statement() {
    let content = String::from("null");

    let tokens = tokenizer::parse(&content).unwrap();
    let parser = AstParser::new(&tokens);

    let result = literal_expression::is_literal_expression_statement(&parser);

    assert_eq!(result, true);
}

#[test]
fn boolean_is_literal_expression_statement() {
    let content = String::from("true");

    let tokens = tokenizer::parse(&content).unwrap();
    let parser = AstParser::new(&tokens);

    let result = literal_expression::is_literal_expression_statement(&parser);

    assert_eq!(result, true);
}

#[test]
fn keyword_is_not_literal_expression_statement() {
    let content = String::from("while");

    let tokens = tokenizer::parse(&content).unwrap();
    let parser = AstParser::new(&tokens);

    let result = literal_expression::is_literal_expression_statement(&parser);

    assert_eq!(result, false);
}

#[test]
fn string_is_parsable_literal_expression() {
    let content = String::from("'Foobar'");

    let tokens = tokenizer::parse(&content).unwrap();
    let parser = AstParser::new(&tokens);

    let result = literal_expression::find(&parser).unwrap().unwrap().value;

    if let Expression::Literal(expression) = result.expression {
        let literal = expression.value;
        assert_eq!(literal.range.0, 0);
        assert_eq!(literal.range.1, 8);
        assert_eq!(literal.value, "Foobar");

        assert_eq!(parser.get_current_index(), 0);
    } else {
        panic!("Invalid return value");
    }
}

#[test]
fn literal_expression_new_line_separated_strings_are_parsable_literal_expression() {
    let content = String::from("'Foobar'\n'Bar'");

    let tokens = tokenizer::parse(&content).unwrap();
    let mut parser = AstParser::new(&tokens);

    let result = literal_expression::find(&parser).unwrap().unwrap();
    consume_result(&mut parser, result);

    let result = literal_expression::find(&parser).unwrap().unwrap().value;

    if let Expression::Literal(expression) = result.expression {
        let literal = expression.value;
        assert_eq!(literal.range.0, 9);
        assert_eq!(literal.range.1, 14);
        assert_eq!(literal.value, "Bar");

        assert_eq!(parser.get_current_index(), 1);
    } else {
        panic!("Invalid return value");
    }
}

#[test]
fn both_strings_are_parsable_literal_expression() {
    let content = String::from("'Foobar';'Bar';");

    let tokens = tokenizer::parse(&content).unwrap();
    let mut parser = AstParser::new(&tokens);

    let result = literal_expression::find(&parser).unwrap().unwrap();
    consume_result(&mut parser, result);
    parser.next();  // Skip the ;

    let result = literal_expression::find(&parser).unwrap().unwrap().value;

    if let Expression::Literal(expression) = result.expression {
        let literal = expression.value;
        assert_eq!(literal.range.0, 9);
        assert_eq!(literal.range.1, 14);
        assert_eq!(literal.value, "Bar");

        assert_eq!(parser.get_current_index(), 2);
    } else {
        panic!("Invalid return value");
    }
}

#[test]
fn three_strings_are_parsable_literal_expression() {
    let content = String::from("'Foobar';'Bar';'Foo';");

    let tokens = tokenizer::parse(&content).unwrap();
    let mut parser = AstParser::new(&tokens);

    let result = literal_expression::find(&parser).unwrap().unwrap();
    consume_result(&mut parser, result);

    parser.next();  // Skip the ;

    let result = literal_expression::find(&parser).unwrap().unwrap();
    consume_result(&mut parser, result);

    parser.next();  // Skip the ;

    let result = literal_expression::find(&parser).unwrap().unwrap().value;

    if let Expression::Literal(expression) = result.expression {
        let literal = expression.value;
        assert_eq!(literal.range.0, 15);
        assert_eq!(literal.range.1, 20);
        assert_eq!(literal.value, "Foo");

        assert_eq!(parser.get_current_index(), 4);
    } else {
        panic!("Invalid return value");
    }
}

// sequence expressions

#[test]
fn string_and_string_is_valid_sequence_statement() {
    let content = String::from("'foo', 'bar';");

    let tokens = tokenizer::parse(&content).unwrap();
    let parser = AstParser::new(&tokens);

    let result = sequence_expression::is_sequence_expression_statement(&parser);

    assert_eq!(result, true);
}

#[test]
fn string_and_identifier_is_valid_sequence_statement() {
    let content = String::from("'foo', 123;");

    let tokens = tokenizer::parse(&content).unwrap();
    let parser = AstParser::new(&tokens);

    let result = sequence_expression::is_sequence_expression_statement(&parser);

    assert_eq!(result, true);
}

#[test]
fn string_and_identifier_without_terminator_is_valid_sequence_statement() {
    let content = String::from("'foo', 123");

    let tokens = tokenizer::parse(&content).unwrap();
    let parser = AstParser::new(&tokens);

    let result = sequence_expression::is_sequence_expression_statement(&parser);

    assert_eq!(result, true);
}

#[test]
fn func_declaration_is_not_a_valid_sequence_statement() {
    let content = String::from("function foo() {}");

    let tokens = tokenizer::parse(&content).unwrap();
    let parser = AstParser::new(&tokens);

    let result = sequence_expression::is_sequence_expression_statement(&parser);

    assert_eq!(result, false);
}

#[test]
fn func_and_string_is_valid_sequence() {
    let content = String::from("foo(x, y, z), 'bar'");

    let tokens = tokenizer::parse(&content).unwrap();
    let parser = AstParser::new(&tokens);

    let result = sequence_expression::is_sequence_expression_statement(&parser);

    assert_eq!(result, true);
}

#[test]
fn string_and_identifier_is_parsable_sequence_expression() {
    let content = String::from("'foo', 'bar';");

    let tokens = tokenizer::parse(&content).unwrap();
    let parser = AstParser::new(&tokens);

    let result = sequence_expression::find(&parser).unwrap().unwrap().value;
    let sequence = match result.expression {
        Expression::SequenceExpression(e) => Some(e),
        _ => None,
    }
    .unwrap();

    assert_eq!(sequence.expressions.len(), 2);
}

#[test]
fn string_and_func_declaration_is_not_a_parsable_sequence_expression() {
    let content = String::from("'foo', function bar() {};");

    let tokens = tokenizer::parse(&content).unwrap();
    let parser = AstParser::new(&tokens);

    let result = sequence_expression::find(&parser).unwrap_err();

    assert_eq!(result.error_type, AstErrorType::UnexpectedToken);
}
