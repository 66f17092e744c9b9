use jsparse::tokenizer;
use jsparse::tokenizer::tokenizer::Tokenizer;
use jsparse::tokenizer::{Literal, Separator, TokenErrorType, TokenType};

#[test]
fn parse_gives_back_single_tokens() {
    let content = String::from("'Hello world'");

    let tokens = tokenizer::parse(&content).unwrap();

    assert_eq!(tokens.len(), 1);
    assert_eq!(tokens.get(0).unwrap().value, "Hello world");
}

#[test]
fn parse_gives_back_two_tokens() {
    let content = String::from("'Hello world' 'Hello world'");

    let tokens = tokenizer::parse(&content).unwrap();

    assert_eq!(tokens.len(), 2);
    assert_eq!(tokens.get(0).unwrap().value, "Hello world");
    assert_eq!(tokens.get(1).unwrap().value, "Hello world");
}

#[test]
fn equation_num_plus_num_gives_back_correct_tokens() {
    let content = String::from("123 + 321");

    let tokens = tokenizer::parse(&content).unwrap();

    assert_eq!(tokens.len(), 3);
    assert_eq!(tokens.get(0).unwrap().value, "123");
    assert_eq!(tokens.get(1).unwrap().value, "+");
    assert_eq!(tokens.get(2).unwrap().value, "321");
}

#[test]
fn equation_num_min_num_gives_back_correct_tokens() {
    let content = String::from("123 - 321");

    let tokens = tokenizer::parse(&content).unwrap();

    assert_eq!(tokens.len(), 3);
    assert_eq!(tokens.get(0).unwrap().value, "123");
    assert_eq!(tokens.get(1).unwrap().value, "-");
    assert_eq!(tokens.get(2).unwrap().value, "321");
}

#[test]
fn raw_values_and_gaps_rebuild_the_source() {
    let content = String::from("  123 + /* note */ 321 // tail\n'x';");

    let tokens = tokenizer::parse(&content).unwrap();
    let chars: Vec<char> = content.chars().collect();

    let mut rebuilt = String::new();
    let mut cursor = 0usize;
    for token in tokens.iter() {
        assert!(cursor <= token.range.0);
        for k in cursor..token.range.0 {
            rebuilt.push(chars[k]);
        }
        rebuilt.push_str(&token.raw_value);
        let slice: String = chars[token.range.0..token.range.1].iter().collect();
        assert_eq!(token.raw_value, slice);
        cursor = token.range.1;
    }
    for k in cursor..chars.len() {
        rebuilt.push(chars[k]);
    }

    assert_eq!(rebuilt, content);
}

#[test]
fn token_ranges_are_never_empty() {
    let content = String::from("{ call(a, 1); 'str' } /*c*/ true null >>= x\ny");

    let tokens = tokenizer::parse(&content).unwrap();

    assert!(tokens.len() > 0);
    for token in tokens.iter() {
        assert!(token.range.0 < token.range.1);
    }
}

#[test]
fn operators_use_the_longest_match() {
    let content = String::from(">>>= >>> >> > === == =");

    let tokens = tokenizer::parse(&content).unwrap();

    assert_eq!(tokens.len(), 7);
    assert_eq!(tokens.get(0).unwrap().raw_value, ">>>=");
    assert_eq!(tokens.get(1).unwrap().raw_value, ">>>");
    assert_eq!(tokens.get(2).unwrap().raw_value, ">>");
    assert_eq!(tokens.get(3).unwrap().raw_value, ">");
    assert_eq!(tokens.get(4).unwrap().raw_value, "===");
    assert_eq!(tokens.get(5).unwrap().raw_value, "==");
    assert_eq!(tokens.get(6).unwrap().raw_value, "=");
    for token in tokens.iter() {
        assert_eq!(token.token_type, TokenType::Operator);
    }
}

#[test]
fn keywords_win_over_identifiers() {
    let content = String::from("while");

    let tokens = tokenizer::parse(&content).unwrap();

    assert_eq!(tokens.len(), 1);
    assert_eq!(tokens.get(0).unwrap().token_type, TokenType::Keyword);
    assert_eq!(tokens.get(0).unwrap().value, "while");
}

#[test]
fn keyword_vocabulary_order_decides_prefix_clashes() {
    let content = String::from("int");

    let tokens = tokenizer::parse(&content).unwrap();

    // "in" stands in the vocabulary and matches before the identifier rule runs
    assert_eq!(tokens.get(0).unwrap().token_type, TokenType::Keyword);
    assert_eq!(tokens.get(0).unwrap().value, "in");
    assert_eq!(tokens.get(1).unwrap().token_type, TokenType::Identifier);
    assert_eq!(tokens.get(1).unwrap().value, "t");
}

#[test]
fn unmatched_character_is_an_unexpected_token() {
    let content = String::from("123 @");

    let err = tokenizer::parse(&content).unwrap_err();

    assert_eq!(err.error_type, TokenErrorType::UnexpectedToken);
    assert_eq!(err.index, 4);
}

#[test]
fn empty_source_gives_no_tokens() {
    let content = String::from("");

    let tokens = tokenizer::parse(&content).unwrap();

    assert_eq!(tokens.len(), 0);
}

#[test]
fn line_breaks_show_in_token_locations() {
    let content = String::from("x\ny");

    let tokens = tokenizer::parse(&content).unwrap();

    assert_eq!(tokens.len(), 2);
    assert_eq!(tokens.get(0).unwrap().loc.start.line, 1);
    assert_eq!(tokens.get(0).unwrap().loc.end.line, 1);
    assert_eq!(tokens.get(1).unwrap().loc.start.line, 2);
    assert_eq!(tokens.get(1).unwrap().loc.start.column, 0);
}

#[test]
fn tokenizer_tracks_line_and_column() {
    let input = String::from("a\nbc");
    let mut tokenizer = Tokenizer::new(&input);

    let start = tokenizer.get_current_file_loc();
    assert_eq!(start.line, 1);
    assert_eq!(start.column, 0);

    tokenizer.next();
    tokenizer.next();
    tokenizer.found_new_line();

    let after_break = tokenizer.get_current_file_loc();
    assert_eq!(after_break.line, 2);
    assert_eq!(after_break.column, 0);
}

#[test]
fn cursor_moves_one_character_at_a_time() {
    let input = String::from("ab");
    let mut tokenizer = Tokenizer::new(&input);

    assert_eq!(tokenizer.has_tokens(), true);
    assert_eq!(*tokenizer.token().unwrap(), 'a');
    assert_eq!(*tokenizer.peek().unwrap(), 'b');
    assert_eq!(*tokenizer.peek_forward(1).unwrap(), 'b');
    assert_eq!(tokenizer.peek_forward(2).is_none(), true);

    let consumed = *tokenizer.consume().unwrap();
    assert_eq!(consumed, 'a');
    assert_eq!(tokenizer.get_current_index(), 1);
    assert_eq!(*tokenizer.peek_back().unwrap(), 'a');

    tokenizer.walk_back();
    assert_eq!(tokenizer.get_current_index(), 0);
}

#[test]
fn separators_and_braces_are_classified() {
    let content = String::from(". , ( ) { } ;");

    let tokens = tokenizer::parse(&content).unwrap();

    assert_eq!(tokens.len(), 7);
    assert_eq!(tokens.get(0).unwrap().token_type, TokenType::Separator(Separator::Period));
    assert_eq!(tokens.get(1).unwrap().token_type, TokenType::Separator(Separator::Comma));
    assert_eq!(tokens.get(2).unwrap().token_type, TokenType::Separator(Separator::Parenthesis));
    assert_eq!(tokens.get(3).unwrap().token_type, TokenType::Separator(Separator::Parenthesis));
    assert_eq!(tokens.get(4).unwrap().token_type, TokenType::Separator(Separator::CurlyBrace));
    assert_eq!(tokens.get(5).unwrap().token_type, TokenType::Separator(Separator::CurlyBrace));
    assert_eq!(tokens.get(6).unwrap().token_type, TokenType::Separator(Separator::Terminator));
}

#[test]
fn literal_kinds_are_classified() {
    let content = String::from("1 'a' true null");

    let tokens = tokenizer::parse(&content).unwrap();

    assert_eq!(tokens.len(), 4);
    assert_eq!(tokens.get(0).unwrap().token_type, TokenType::Literal(Literal::Number));
    assert_eq!(tokens.get(1).unwrap().token_type, TokenType::Literal(Literal::String));
    assert_eq!(tokens.get(2).unwrap().token_type, TokenType::Literal(Literal::Boolean));
    assert_eq!(tokens.get(3).unwrap().token_type, TokenType::Literal(Literal::Null));
}

#[test]
fn uncommon_whitespace_is_skipped() {
    let content = String::from("\t1\u{00A0}2\r3");

    let tokens = tokenizer::parse(&content).unwrap();

    assert_eq!(tokens.len(), 3);
    assert_eq!(tokens.get(0).unwrap().value, "1");
    assert_eq!(tokens.get(1).unwrap().value, "2");
    assert_eq!(tokens.get(2).unwrap().value, "3");
}

#[test]
fn lone_slash_is_not_a_known_lexeme() {
    // the operator vocabulary holds `/=` but no bare `/`
    let content = String::from("a / b");

    let err = tokenizer::parse(&content).unwrap_err();

    assert_eq!(err.error_type, TokenErrorType::UnexpectedToken);
    assert_eq!(err.index, 2);
}

#[test]
fn compound_assignment_lexemes_are_single_tokens() {
    let content = String::from("x ??= y");

    let tokens = tokenizer::parse(&content).unwrap();

    assert_eq!(tokens.len(), 3);
    assert_eq!(tokens.get(1).unwrap().raw_value, "??=");
    assert_eq!(tokens.get(1).unwrap().token_type, TokenType::Operator);
}
