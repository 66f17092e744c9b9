use jsparse::tokenizer::consumers::boolean::{consume_boolean, is_boolean, is_false, is_true};
use jsparse::tokenizer::consumers::comments::{
    consume_block_comment, consume_line_comment, is_block_comment, is_line_comment,
};
use jsparse::tokenizer::consumers::curly_brace::{consume_curly_brace, is_curly_brace};
use jsparse::tokenizer::consumers::eol::{consume_eol, is_eol};
use jsparse::tokenizer::consumers::identifier::{consume_identifier, is_identifier};
use jsparse::tokenizer::consumers::is_word;
use jsparse::tokenizer::consumers::keywords::{consume_keyword, find_keyword, is_keyword};
use jsparse::tokenizer::consumers::null::{consume_null, is_null};
use jsparse::tokenizer::consumers::number::{consume_number, is_number};
use jsparse::tokenizer::consumers::operator::consume_operator;
use jsparse::tokenizer::consumers::parenthesis::{consume_parenthesis, is_parenthesis};
use jsparse::tokenizer::consumers::separator::{
    consume_comma, consume_period, is_comma, is_period,
};
use jsparse::tokenizer::consumers::string::{consume_string, is_string};
use jsparse::tokenizer::consumers::terminator::{consume_terminator, is_terminator};
use jsparse::tokenizer::consumers::whitespace::{consume_whitespace, is_whitespace};
use jsparse::tokenizer::tokenizer::Tokenizer;
use jsparse::tokenizer::{Literal, Separator, TokenErrorType, TokenType};

// boolean

#[test]
fn true_is_true_is_true() {
    let input = String::from("true");
    let tokenizer = Tokenizer::new(&input);

    let result = is_true(&tokenizer);

    assert_eq!(result, true);
}

#[test]
fn false_is_true_is_false() {
    let input = String::from("false");
    let tokenizer = Tokenizer::new(&input);

    let result = is_true(&tokenizer);

    assert_eq!(result, false);
}

#[test]
fn false_is_false_is_true() {
    let input = String::from("false");
    let tokenizer = Tokenizer::new(&input);

    let result = is_false(&tokenizer);

    assert_eq!(result, true);
}

#[test]
fn true_is_false_is_false() {
    let input = String::from("true");
    let tokenizer = Tokenizer::new(&input);

    let result = is_false(&tokenizer);

    assert_eq!(result, false);
}

#[test]
fn false_is_boolean_is_true() {
    let input = String::from("false");
    let tokenizer = Tokenizer::new(&input);

    let result = is_boolean(&tokenizer);

    assert_eq!(result, true);
}

#[test]
fn true_is_boolean_is_true() {
    let input = String::from("true");
    let tokenizer = Tokenizer::new(&input);

    let result = is_boolean(&tokenizer);

    assert_eq!(result, true);
}

#[test]
fn true_consume_is_valid() {
    let input = String::from("true");
    let mut tokenizer = Tokenizer::new(&input);

    let result = consume_boolean(&mut tokenizer).unwrap();

    assert_eq!(result.token_type, TokenType::Literal(Literal::Boolean));
    assert_eq!(result.value, "true");
    assert_eq!(result.raw_value, "true");
    assert_eq!(tokenizer.get_current_index(), 4);
}

#[test]
fn false_consume_is_valid() {
    let input = String::from("false");
    let mut tokenizer = Tokenizer::new(&input);

    let result = consume_boolean(&mut tokenizer).unwrap();

    assert_eq!(result.token_type, TokenType::Literal(Literal::Boolean));
    assert_eq!(result.value, "false");
    assert_eq!(result.raw_value, "false");
    assert_eq!(tokenizer.get_current_index(), 5);
}

#[test]
fn boolean_consume_invalid_input() {
    let input = String::from("\u{1F980}");
    let mut tokenizer = Tokenizer::new(&input);

    let token = consume_boolean(&mut tokenizer).unwrap_err();

    assert_eq!(token.error_type, TokenErrorType::UnexpectedToken);
}

// comments

#[test]
fn is_start_line_comment() {
    let input = String::from("// Foobar");
    let tokenizer = Tokenizer::new(&input);

    let result = is_line_comment(&tokenizer);

    assert_eq!(result, true);
}

#[test]
fn is_start_block_comment() {
    let input = String::from("/* Foobar */");
    let tokenizer = Tokenizer::new(&input);

    let result = is_block_comment(&tokenizer);

    assert_eq!(result, true);
}

#[test]
fn process_line_comment() {
    let input = String::from("// Foobar");
    let mut tokenizer = Tokenizer::new(&input);

    consume_line_comment(&mut tokenizer);

    assert_eq!(tokenizer.get_current_index(), input.len());
}

#[test]
fn process_line_comment_with_newline() {
    let input = String::from("// Foo\n//Bar");
    let mut tokenizer = Tokenizer::new(&input);

    consume_line_comment(&mut tokenizer);

    assert_eq!(tokenizer.get_current_index(), 7);
}

#[test]
fn process_block_comment() {
    let input = String::from("/* Foobar */");
    let mut tokenizer = Tokenizer::new(&input);

    consume_block_comment(&mut tokenizer);

    assert_eq!(tokenizer.get_current_index(), input.len());
}

#[test]
fn process_block_comment_without_end_block() {
    let input = String::from("/* Foobar");
    let mut tokenizer = Tokenizer::new(&input);

    consume_block_comment(&mut tokenizer);

    assert_eq!(tokenizer.get_current_index(), input.len());
}

#[test]
fn process_block_comment_with_broken_end_block() {
    let input = String::from("/* Foobar *");
    let mut tokenizer = Tokenizer::new(&input);

    consume_block_comment(&mut tokenizer);

    assert_eq!(tokenizer.get_current_index(), input.len());
}

// curly braces

#[test]
fn is_open_brace_input_a_curly_brace() {
    let input = String::from("{");
    let tokenizer = Tokenizer::new(&input);

    let result = is_curly_brace(&tokenizer);

    assert_eq!(result, true);
}

#[test]
fn is_closed_brace_input_a_curly_brace() {
    let input = String::from("}");
    let tokenizer = Tokenizer::new(&input);

    let result = is_curly_brace(&tokenizer);

    assert_eq!(result, true);
}

#[test]
fn is_whitespace_input_not_a_curly_brace() {
    let input = String::from(" ");
    let tokenizer = Tokenizer::new(&input);

    let result = is_curly_brace(&tokenizer);

    assert_eq!(result, false);
}

#[test]
fn consume_open_curly_brace_input() {
    let input = String::from("{");
    let mut tokenizer = Tokenizer::new(&input);

    let token = consume_curly_brace(&mut tokenizer).unwrap();

    assert_eq!(tokenizer.get_current_index(), input.len());
    assert_eq!(token.token_type, TokenType::Separator(Separator::CurlyBrace));
    assert_eq!(token.value, "{");
    assert_eq!(token.raw_value, "{");
}

#[test]
fn curly_brace_consume_invalid_input() {
    let input = String::from("\u{1F980}");
    let mut tokenizer = Tokenizer::new(&input);

    let token = consume_curly_brace(&mut tokenizer).unwrap_err();

    assert_eq!(token.error_type, TokenErrorType::UnexpectedToken);
}

#[test]
fn consume_closed_curly_brace_input() {
    let input = String::from("}");
    let mut tokenizer = Tokenizer::new(&input);

    let token = consume_curly_brace(&mut tokenizer).unwrap();

    assert_eq!(tokenizer.get_current_index(), input.len());
    assert_eq!(token.token_type, TokenType::Separator(Separator::CurlyBrace));
    assert_eq!(token.value, "}");
    assert_eq!(token.raw_value, "}");
}

// end of line

#[test]
fn is_eol_input_eol() {
    let input = String::from("\n");
    let tokenizer = Tokenizer::new(&input);

    let result = is_eol(&tokenizer);

    assert_eq!(result, true);
}

#[test]
fn is_text_input_not_eol() {
    let input = String::from("Foobar");
    let tokenizer = Tokenizer::new(&input);

    let result = is_eol(&tokenizer);

    assert_eq!(result, false);
}

#[test]
fn consume_eol_input() {
    let input = String::from("\n");
    let mut tokenizer = Tokenizer::new(&input);

    let _ = consume_eol(&mut tokenizer).unwrap();

    assert_eq!(tokenizer.get_current_index(), input.len());
}

#[test]
fn eol_consume_invalid_input() {
    let input = String::from("\u{1F980}");
    let mut tokenizer = Tokenizer::new(&input);

    let token = consume_eol(&mut tokenizer).unwrap_err();

    assert_eq!(token.error_type, TokenErrorType::UnexpectedToken);
}

// identifiers

#[test]
fn is_identifier_identifier() {
    let input = String::from("Foobar");
    let tokenizer = Tokenizer::new(&input);

    let result = is_identifier(&tokenizer);

    assert_eq!(result, true);
}

#[test]
fn is_number_an_identifier() {
    let input = String::from("1");
    let tokenizer = Tokenizer::new(&input);

    let result = is_identifier(&tokenizer);

    assert_eq!(result, false);
}

#[test]
fn consume_single_identifier_input() {
    let input = String::from("A");
    let mut tokenizer = Tokenizer::new(&input);

    let token = consume_identifier(&mut tokenizer).unwrap();

    assert_eq!(token.value, "A");
    assert_eq!(token.token_type, TokenType::Identifier);
    assert_eq!(tokenizer.get_current_index(), input.len());
}

#[test]
fn consume_longer_identifier_input() {
    let input = String::from("Foobar");
    let mut tokenizer = Tokenizer::new(&input);

    let token = consume_identifier(&mut tokenizer).unwrap();

    assert_eq!(token.value, "Foobar");
    assert_eq!(token.token_type, TokenType::Identifier);
    assert_eq!(tokenizer.get_current_index(), input.len());
}

// keywords

#[test]
fn if_is_if_is_true() {
    let input = String::from("if");
    let tokenizer = Tokenizer::new(&input);

    let result = is_keyword(&tokenizer, "if");

    assert_eq!(result, true);
}

#[test]
fn while_is_if_is_false() {
    let input = String::from("while");
    let tokenizer = Tokenizer::new(&input);

    let result = is_keyword(&tokenizer, "if");

    assert_eq!(result, false);
}

#[test]
fn find_if_keyword() {
    let input = String::from("if");
    let tokenizer = Tokenizer::new(&input);

    let result = find_keyword(&tokenizer).unwrap();

    assert_eq!(result, "if");
}

#[test]
fn consume_if_keyword() {
    let input = String::from("if");
    let mut tokenizer = Tokenizer::new(&input);

    let result = consume_keyword(&mut tokenizer, "if").unwrap();

    assert_eq!(result.token_type, TokenType::Keyword);
    assert_eq!(result.value, "if");
    assert_eq!(result.raw_value, "if");
    assert_eq!(tokenizer.get_current_index(), 2);
}

// words

#[test]
fn foobar_equals_foobar() {
    let input = String::from("foobar");
    let tokenizer = Tokenizer::new(&input);
    let word = "foobar";

    let result = is_word(&tokenizer, word);

    assert_eq!(result, true);
}

#[test]
fn barfoo_equals_foobar() {
    let input = String::from("barfoo");
    let tokenizer = Tokenizer::new(&input);
    let word = "foobar";

    let result = is_word(&tokenizer, word);

    assert_eq!(result, false);
}

// null

#[test]
fn null_is_null() {
    let input = String::from("null");
    let tokenizer = Tokenizer::new(&input);

    let result = is_null(&tokenizer);

    assert_eq!(result, true);
}

#[test]
fn foobar_is_not_null() {
    let input = String::from("foobar");
    let tokenizer = Tokenizer::new(&input);

    let result = is_null(&tokenizer);

    assert_eq!(result, false);
}

#[test]
fn consume_open_null_input() {
    let input = String::from("null");
    let mut tokenizer = Tokenizer::new(&input);

    let token = consume_null(&mut tokenizer).unwrap();

    assert_eq!(tokenizer.get_current_index(), input.len());
    assert_eq!(token.token_type, TokenType::Literal(Literal::Null));
    assert_eq!(token.value, "");
    assert_eq!(token.raw_value, "null");
    assert_eq!(tokenizer.get_current_index(), 4)
}

#[test]
fn null_consume_invalid_input() {
    let input = String::from("\u{1F980}");
    let mut tokenizer = Tokenizer::new(&input);

    let token = consume_null(&mut tokenizer).unwrap_err();

    assert_eq!(token.error_type, TokenErrorType::UnexpectedToken);
}

// numbers

#[test]
fn is_number_a_number() {
    let input = String::from("1");
    let tokenizer = Tokenizer::new(&input);

    let result = is_number(&tokenizer);

    assert_eq!(result, true);
}

#[test]
fn is_text_input_not_a_number() {
    let input = String::from("Foobar");
    let tokenizer = Tokenizer::new(&input);

    let result = is_number(&tokenizer);

    assert_eq!(result, false);
}

#[test]
fn consume_single_number_input() {
    let input = String::from("1");
    let mut tokenizer = Tokenizer::new(&input);

    let token = consume_number(&mut tokenizer).unwrap();

    assert_eq!(token.value, "1");
    assert_eq!(token.token_type, TokenType::Literal(Literal::Number));
    assert_eq!(tokenizer.get_current_index(), input.len());
}

#[test]
fn consume_double_digit_number_input() {
    let input = String::from("123");
    let mut tokenizer = Tokenizer::new(&input);

    let token = consume_number(&mut tokenizer).unwrap();

    assert_eq!(token.value, "123");
    assert_eq!(token.token_type, TokenType::Literal(Literal::Number));
    assert_eq!(tokenizer.get_current_index(), input.len());
}

#[test]
fn number_consume_invalid_input() {
    let input = String::from("\u{1F980}");
    let mut tokenizer = Tokenizer::new(&input);

    let token = consume_number(&mut tokenizer).unwrap_err();

    assert_eq!(token.error_type, TokenErrorType::UnexpectedToken);
}

// operators

#[test]
fn operator_only_consumes_all_valid() {
    let input = String::from("-=-10");
    let mut tokenizer = Tokenizer::new(&input);

    let operator = consume_operator(&mut tokenizer, "-=").unwrap();

    assert_eq!(operator.value, "-=");
    assert_eq!(operator.raw_value, "-=");
    assert_eq!(operator.token_type, TokenType::Operator);
    assert_eq!(tokenizer.get_current_index(), 2);
}

#[test]
fn operator_consume_invalid_input() {
    let input = String::from("\u{1F980}");
    let mut tokenizer = Tokenizer::new(&input);

    let token = consume_operator(&mut tokenizer, "++").unwrap_err();

    assert_eq!(token.error_type, TokenErrorType::UnexpectedToken);
}

// parentheses

#[test]
fn is_open_parenthesis_input_a_parenthesis() {
    let input = String::from("(");
    let tokenizer = Tokenizer::new(&input);

    let result = is_parenthesis(&tokenizer);

    assert_eq!(result, true);
}

#[test]
fn is_closed_parenthesis_input_a_parenthesis() {
    let input = String::from(")");
    let tokenizer = Tokenizer::new(&input);

    let result = is_parenthesis(&tokenizer);

    assert_eq!(result, true);
}

#[test]
fn is_whitespace_input_not_a_parenthesis() {
    let input = String::from(" ");
    let tokenizer = Tokenizer::new(&input);

    let result = is_parenthesis(&tokenizer);

    assert_eq!(result, false);
}

#[test]
fn consume_open_parenthesis_input() {
    let input = String::from("(");
    let mut tokenizer = Tokenizer::new(&input);

    let token = consume_parenthesis(&mut tokenizer).unwrap();

    assert_eq!(tokenizer.get_current_index(), input.len());
    assert_eq!(token.token_type, TokenType::Separator(Separator::Parenthesis));
    assert_eq!(token.value, "(");
    assert_eq!(token.raw_value, "(");
}

#[test]
fn consume_closed_parenthesis_input() {
    let input = String::from(")");
    let mut tokenizer = Tokenizer::new(&input);

    let token = consume_parenthesis(&mut tokenizer).unwrap();

    assert_eq!(tokenizer.get_current_index(), input.len());
    assert_eq!(token.token_type, TokenType::Separator(Separator::Parenthesis));
    assert_eq!(token.value, ")");
    assert_eq!(token.raw_value, ")");
}

#[test]
fn parenthesis_consume_invalid_input() {
    let input = String::from("\u{1F980}");
    let mut tokenizer = Tokenizer::new(&input);

    let token = consume_parenthesis(&mut tokenizer).unwrap_err();

    assert_eq!(token.error_type, TokenErrorType::UnexpectedToken);
}

// separators

#[test]
fn is_comma_input_a_separator() {
    let input = String::from(",");
    let tokenizer = Tokenizer::new(&input);

    let result = is_comma(&tokenizer);

    assert_eq!(result, true);
}

#[test]
fn is_period_input_a_separator() {
    let input = String::from(".");
    let tokenizer = Tokenizer::new(&input);

    let result = is_period(&tokenizer);

    assert_eq!(result, true);
}

#[test]
fn is_whitespace_input_not_a_separator() {
    let input = String::from(" ");
    let tokenizer = Tokenizer::new(&input);

    let result = is_comma(&tokenizer);

    assert_eq!(result, false);
}

#[test]
fn separator_consume_comma_input() {
    let input = String::from(",");
    let mut tokenizer = Tokenizer::new(&input);

    let token = consume_comma(&mut tokenizer).unwrap();

    assert_eq!(tokenizer.get_current_index(), input.len());
    assert_eq!(token.token_type, TokenType::Separator(Separator::Comma));
    assert_eq!(token.value, ",");
    assert_eq!(token.raw_value, ",");
}

#[test]
fn separator_consume_period_input() {
    let input = String::from(".");
    let mut tokenizer = Tokenizer::new(&input);

    let token = consume_period(&mut tokenizer).unwrap();

    assert_eq!(tokenizer.get_current_index(), input.len());
    assert_eq!(token.token_type, TokenType::Separator(Separator::Period));
    assert_eq!(token.value, ".");
    assert_eq!(token.raw_value, ".");
}

#[test]
fn consume_invalid_input_period() {
    let input = String::from("\u{1F980}");
    let mut tokenizer = Tokenizer::new(&input);

    let token = consume_period(&mut tokenizer).unwrap_err();

    assert_eq!(token.error_type, TokenErrorType::UnexpectedToken);
}

#[test]
fn consume_invalid_input_comma() {
    let input = String::from("\u{1F980}");
    let mut tokenizer = Tokenizer::new(&input);

    let token = consume_comma(&mut tokenizer).unwrap_err();

    assert_eq!(token.error_type, TokenErrorType::UnexpectedToken);
}

#[test]
fn is_comma_input_a_seperator() {
    let input = String::from(",");
    let tokenizer = Tokenizer::new(&input);

    let result = is_comma(&tokenizer);

    assert_eq!(result, true);
}

#[test]
fn is_period_input_a_seperator() {
    let input = String::from(".");
    let tokenizer = Tokenizer::new(&input);

    let result = is_period(&tokenizer);

    assert_eq!(result, true);
}

#[test]
fn is_whitespace_input_not_a_seperator() {
    let input = String::from(" ");
    let tokenizer = Tokenizer::new(&input);

    let result = is_comma(&tokenizer);

    assert_eq!(result, false);
}

#[test]
fn seperator_consume_comma_input() {
    let input = String::from(",");
    let mut tokenizer = Tokenizer::new(&input);

    let token = consume_comma(&mut tokenizer).unwrap();

    assert_eq!(tokenizer.get_current_index(), input.len());
    assert_eq!(token.token_type, TokenType::Separator(Separator::Comma));
    assert_eq!(token.value, ",");
    assert_eq!(token.raw_value, ",");
}

#[test]
fn seperator_consume_period_input() {
    let input = String::from(".");
    let mut tokenizer = Tokenizer::new(&input);

    let token = consume_period(&mut tokenizer).unwrap();

    assert_eq!(tokenizer.get_current_index(), input.len());
    assert_eq!(token.token_type, TokenType::Separator(Separator::Period));
    assert_eq!(token.value, ".");
    assert_eq!(token.raw_value, ".");
}

// strings

#[test]
fn is_string_a_string() {
    let input = String::from("\"Foobar\"");
    let tokenizer = Tokenizer::new(&input);

    let result = is_string(&tokenizer);

    assert_eq!(result, true);
}

#[test]
fn number_is_not_a_string() {
    let input = String::from("1");
    let tokenizer = Tokenizer::new(&input);

    let result = is_string(&tokenizer);

    assert_eq!(result, false);
}

#[test]
fn consume_string_input() {
    let input = String::from("\"Foobar\"");
    let mut tokenizer = Tokenizer::new(&input);

    let token = consume_string(&mut tokenizer).unwrap();

    assert_eq!(token.value, "Foobar");
    assert_eq!(token.raw_value, "\"Foobar\"");
    assert_eq!(token.token_type, TokenType::Literal(Literal::String));
    assert_eq!(tokenizer.get_current_index(), input.len());
}

#[test]
fn consume_string_input_with_escaped_quote() {
    let input = String::from("\"Foo\\\"bar\"");
    let mut tokenizer = Tokenizer::new(&input);

    let token = consume_string(&mut tokenizer).unwrap();

    assert_eq!(token.value, "Foo\"bar");
    assert_eq!(token.raw_value, "\"Foo\\\"bar\"");
    assert_eq!(token.token_type, TokenType::Literal(Literal::String));
    assert_eq!(tokenizer.get_current_index(), input.len());
}

#[test]
fn consume_string_input_with_escaped_char() {
    let input = String::from("\"Foo\\abar\"");
    let mut tokenizer = Tokenizer::new(&input);

    let token = consume_string(&mut tokenizer).unwrap();

    assert_eq!(token.value, "Fooabar");
    assert_eq!(token.raw_value, "\"Foo\\abar\"");
    assert_eq!(token.token_type, TokenType::Literal(Literal::String));
    assert_eq!(tokenizer.get_current_index(), input.len());
}

#[test]
fn consume_string_input_with_escaped_slash() {
    let input = String::from("\"Foo\\\\bar\"");
    let mut tokenizer = Tokenizer::new(&input);

    let token = consume_string(&mut tokenizer).unwrap();

    assert_eq!(token.value, "Foo\\bar");
    assert_eq!(token.raw_value, "\"Foo\\\\bar\"");
    assert_eq!(token.token_type, TokenType::Literal(Literal::String));
    assert_eq!(tokenizer.get_current_index(), input.len());
}

#[test]
fn give_error_on_line_separated_string() {
    let input = String::from("\"Foo\nbar\"");
    let mut tokenizer = Tokenizer::new(&input);

    let token = consume_string(&mut tokenizer).unwrap_err();

    assert_eq!(token.error_type, TokenErrorType::UnterminatedStringLiteral);
}

#[test]
fn give_error_on_unterminated_string() {
    let input = String::from("\"Foo");
    let mut tokenizer = Tokenizer::new(&input);

    let token = consume_string(&mut tokenizer).unwrap_err();

    assert_eq!(token.error_type, TokenErrorType::UnterminatedStringLiteral);
}

#[test]
fn give_error_on_incorrect_terminated_string() {
    let input = String::from("\"Foo'");
    let mut tokenizer = Tokenizer::new(&input);

    let token = consume_string(&mut tokenizer).unwrap_err();

    assert_eq!(token.error_type, TokenErrorType::UnterminatedStringLiteral);
}

// terminators

#[test]
fn is_terminator_input_a_terminator() {
    let input = String::from(";");
    let tokenizer = Tokenizer::new(&input);

    let result = is_terminator(&tokenizer);

    assert_eq!(result, true);
}

#[test]
fn is_whitespace_input_not_a_terminator() {
    let input = String::from(" ");
    let tokenizer = Tokenizer::new(&input);

    let result = is_terminator(&tokenizer);

    assert_eq!(result, false);
}

#[test]
fn consume_terminator_input() {
    let input = String::from(";");
    let mut tokenizer = Tokenizer::new(&input);

    let token = consume_terminator(&mut tokenizer).unwrap();

    assert_eq!(tokenizer.get_current_index(), input.len());
    assert_eq!(token.token_type, TokenType::Separator(Separator::Terminator));
    assert_eq!(token.value, ";");
    assert_eq!(token.raw_value, ";");
}

#[test]
fn terminator_consume_invalid_input() {
    let input = String::from("\u{1F980}");
    let mut tokenizer = Tokenizer::new(&input);

    let token = consume_terminator(&mut tokenizer).unwrap_err();

    assert_eq!(token.error_type, TokenErrorType::UnexpectedToken);
}

// whitespace

#[test]
fn is_whitespace_input_whitespace() {
    let input = String::from(" ");
    let tokenizer = Tokenizer::new(&input);

    let result = is_whitespace(&tokenizer);

    assert_eq!(result, true);
}

#[test]
fn is_text_input_not_whitespace() {
    let input = String::from("Foobar");
    let tokenizer = Tokenizer::new(&input);

    let result = is_whitespace(&tokenizer);

    assert_eq!(result, false);
}

#[test]
fn consume_whitespace_input() {
    let input = String::from(" ");
    let mut tokenizer = Tokenizer::new(&input);

    let _ = consume_whitespace(&mut tokenizer).unwrap();

    assert_eq!(tokenizer.get_current_index(), input.len());
}

#[test]
fn whitespace_consume_invalid_input() {
    let input = String::from("\u{1F980}");
    let mut tokenizer = Tokenizer::new(&input);

    let token = consume_whitespace(&mut tokenizer).unwrap_err();

    assert_eq!(token.error_type, TokenErrorType::UnexpectedToken);
}
