use jsparse::ast::nodes::expression_statement::Expression;
use jsparse::ast::parser::AstParser;
use jsparse::ast::parsers::parts::binary_operation::parse_binary_operation;
use jsparse::ast::parsers::parts::function_call::parse_function_call;
use jsparse::ast::parsers::parts::sequence::parse_sequence;
use jsparse::tokenizer;

#[test]
fn binary_expression_is_binary_operation() {
    let content = String::from("321 + 123");

    let tokens = tokenizer::parse(&content).unwrap();
    let parser = AstParser::new(&tokens);
    let mut tokens_used = 0usize;

    let result = parse_binary_operation(&parser, 0, &mut tokens_used).unwrap();

    let expected_left = match result.left.as_ref() {
        Expression::Literal(e) => Some(e),
        _ => None,
    }
    .unwrap();
    let expected_right = match result.right.as_ref() {
        Expression::Literal(e) => Some(e),
        _ => None,
    }
    .unwrap();

    assert_eq!(result.operator, "+");
    assert_eq!(expected_left.value.raw, "321");
    assert_eq!(expected_right.value.raw, "123");
    assert_eq!(tokens_used, 3);
}

#[test]
fn multiple_binary_expression_is_binary_operation() {
    let content = String::from("112233 - 321 + 123");

    let tokens = tokenizer::parse(&content).unwrap();
    let parser = AstParser::new(&tokens);
    let mut tokens_used = 0usize;

    let result = parse_binary_operation(&parser, 0, &mut tokens_used).unwrap();

    let expected_left = match result.left.as_ref() {
        Expression::BinaryExpression(e) => Some(e),
        _ => None,
    }
    .unwrap();

    let expected_left_left = match expected_left.left.as_ref() {
        Expression::Literal(e) => Some(e),
        _ => None,
    }
    .unwrap();
    let expected_left_right = match expected_left.right.as_ref() {
        Expression::Literal(e) => Some(e),
        _ => None,
    }
    .unwrap();

    let expected_right = match result.right.as_ref() {
        Expression::Literal(e) => Some(e),
        _ => None,
    }
    .unwrap();

    assert_eq!(expected_left_left.value.raw, "112233");
    assert_eq!(expected_left.operator, "-");
    assert_eq!(expected_left_right.value.raw, "321");
    assert_eq!(result.operator, "+");
    assert_eq!(expected_right.value.raw, "123");

    assert_eq!(tokens_used, 5);
}

#[test]
fn function_call_is_function_call() {
    let content = String::from("foobar()");

    let tokens = tokenizer::parse(&content).unwrap();
    let parser = AstParser::new(&tokens);

    let mut tokens_used = 0usize;

    let result = parse_function_call(&parser, 0, &mut tokens_used).unwrap();

    assert_eq!(result.callee.name, "foobar");
}

#[test]
fn function_call_with_params_is_function_call() {
    let content = String::from("foobar('Foobar', 123, id)");

    let tokens = tokenizer::parse(&content).unwrap();
    let parser = AstParser::new(&tokens);

    let mut tokens_used = 0usize;

    let result = parse_function_call(&parser, 0, &mut tokens_used).unwrap();

    assert_eq!(result.callee.name, "foobar");
}

#[test]
fn sequence_can_be_parsed_as_a_sequence() {
    let content = String::from("'Foobar', Bar");

    let tokens = tokenizer::parse(&content).unwrap();
    let parser = AstParser::new(&tokens);

    let mut tokens_used = 0usize;

    let result = parse_sequence(&parser, 0, &mut tokens_used).unwrap();

    let result1 = match result.expressions.get(0).unwrap() {
        Expression::Literal(val) => Some(&val.value),
        _ => None,
    };

    let result2 = match result.expressions.get(1).unwrap() {
        Expression::Identifier(val) => Some(&val.identifier),
        _ => None,
    };

    assert_eq!(result.expressions.len(), 2);
    assert_eq!(tokens_used, 3);
    assert_eq!(result1.unwrap().value, "Foobar");
    assert_eq!(result2.unwrap().name, "Bar");
}
