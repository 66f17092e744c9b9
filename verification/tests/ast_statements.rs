use jsparse::ast::parser::AstParser;
use jsparse::ast::parsers::block_statements::{
    is_closed_block_statement, is_open_block_statement, parse_block_statement,
};
use jsparse::ast::parsers::function_declaration::{
    is_function_declaration, parse_function_declaration,
};
use jsparse::ast::AstErrorType;
use jsparse::tokenizer;

#[test]
fn open_bracket_is_open_block_statement() {
    let content = String::from("{");

    let tokens = tokenizer::parse(&content).unwrap();
    let parser = AstParser::new(&tokens);

    let result = is_open_block_statement(&parser);

    assert_eq!(result, true);
}

#[test]
fn closed_bracket_is_not_open_block_statement() {
    let content = String::from("}");

    let tokens = tokenizer::parse(&content).unwrap();
    let parser = AstParser::new(&tokens);

    let result = is_open_block_statement(&parser);

    assert_eq!(result, false);
}

#[test]
fn closed_bracket_is_closed_block_statement() {
    let content = String::from("}");

    let tokens = tokenizer::parse(&content).unwrap();
    let parser = AstParser::new(&tokens);

    let result = is_closed_block_statement(&parser);

    assert_eq!(result, true);
}

#[test]
fn open_bracket_is_not_closed_block_statement() {
    let content = String::from("{");

    let tokens = tokenizer::parse(&content).unwrap();
    let parser = AstParser::new(&tokens);

    let result = is_closed_block_statement(&parser);

    assert_eq!(result, false);
}

#[test]
fn block_with_literal_is_block_statement() {
    let content = String::from("{ 123 }");

    let tokens = tokenizer::parse(&content).unwrap();
    let mut parser = AstParser::new(&tokens);

    let block = parse_block_statement(&mut parser).unwrap();

    assert_eq!(block.body.len(), 1);
}

#[test]
fn block_with_subblock_with_literal_is_block_statement() {
    let content = String::from("{ { 123 } }");

    let tokens = tokenizer::parse(&content).unwrap();
    let mut parser = AstParser::new(&tokens);

    let block = parse_block_statement(&mut parser).unwrap();

    assert_eq!(block.body.len(), 1);
}

#[test]
fn block_without_closing_tag_throws_an_error() {
    let content = String::from("{ { 123 }");

    let tokens = tokenizer::parse(&content).unwrap();
    let mut parser = AstParser::new(&tokens);

    let err = parse_block_statement(&mut parser).unwrap_err();

    assert_eq!(err.error_type, AstErrorType::UnexpectedEndOfInput);
}

#[test]
fn function_keyword_is_start_function_declaration() {
    let content = String::from("function");

    let tokens = tokenizer::parse(&content).unwrap();
    let parser = AstParser::new(&tokens);

    let result = is_function_declaration(&parser);

    assert_eq!(result, true);
}

#[test]
fn string_is_not_a_start_function_declaration() {
    let content = String::from("'Foobar'");

    let tokens = tokenizer::parse(&content).unwrap();
    let parser = AstParser::new(&tokens);

    let result = is_function_declaration(&parser);

    assert_eq!(result, false);
}

#[test]
fn valid_function_parses_as_a_function() {
    let content = String::from("function x() {}");

    let tokens = tokenizer::parse(&content).unwrap();
    let mut parser = AstParser::new(&tokens);

    let result = parse_function_declaration(&mut parser).unwrap();

    assert_eq!(result.id.name, "x");
    assert_eq!(result.params.len(), 0);
}

#[test]
fn valid_function_with_params_parses_as_a_function() {
    let content = String::from("function x(x, y, z) {}");

    let tokens = tokenizer::parse(&content).unwrap();
    let mut parser = AstParser::new(&tokens);

    let result = parse_function_declaration(&mut parser).unwrap();

    assert_eq!(result.id.name, "x");
    assert_eq!(result.params.len(), 3);
}

#[test]
fn not_valid_function_gives_an_error() {
    let content = String::from("function x(123) {}");

    let tokens = tokenizer::parse(&content).unwrap();
    let mut parser = AstParser::new(&tokens);

    let result = parse_function_declaration(&mut parser).unwrap_err();

    assert_eq!(result.error_type, AstErrorType::UnexpectedToken);
}

#[test]
fn block_cut_off_after_a_statement_is_an_unexpected_end_of_input() {
    let content = String::from("{ 123");

    let tokens = tokenizer::parse(&content).unwrap();
    let mut parser = AstParser::new(&tokens);

    let err = parse_block_statement(&mut parser).unwrap_err();

    assert_eq!(err.error_type, AstErrorType::UnexpectedEndOfInput);
}

#[test]
fn minimal_function_declaration_has_no_params_and_empty_body() {
    let content = String::from("function x() {}");

    let tokens = tokenizer::parse(&content).unwrap();
    let mut parser = AstParser::new(&tokens);

    let result = parse_function_declaration(&mut parser).unwrap();

    assert_eq!(result.body.body.len(), 0);
    assert_eq!(result.range, (0, 15));
    assert_eq!(parser.get_current_index(), 6);
}
