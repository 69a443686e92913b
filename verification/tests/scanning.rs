use loxr::lexer::Scanner;
use loxr::loxr_::Loxr;
use loxr::token::{keywords, Literal, Token, Token_Type};

fn create_token(token_type: Token_Type, lexeme: &str) -> Token {
    Token { token_type, lexeme: lexeme.to_string(), literal: None, line: 1 }
}

fn scan(source: &str) -> Scanner {
    let loxr = Loxr::new();
    let mut scanner = Scanner::new(source, loxr);
    scanner.scan_tokens();
    scanner
}

fn kinds(source: &str) -> Vec<Token_Type> {
    scan(source).tokens.iter().map(|t| t.token_type).collect()
}

#[test]
fn test_single_character_tokens() {
    let loxr = Loxr::new();
    let mut scanner = Scanner::new("{}.()**}}!===!>=><=>", loxr);
    let mut expected = Vec::<Token>::new();

    expected.push(create_token(Token_Type::LEFT_BRACE, "{"));
    expected.push(create_token(Token_Type::RIGHT_BRACE, "}"));
    expected.push(create_token(Token_Type::DOT, "."));
    expected.push(create_token(Token_Type::LEFT_PAREN, "("));
    expected.push(create_token(Token_Type::RIGHT_PAREN, ")"));
    expected.push(create_token(Token_Type::STAR, "*"));
    expected.push(create_token(Token_Type::STAR, "*"));
    expected.push(create_token(Token_Type::RIGHT_BRACE, "}"));
    expected.push(create_token(Token_Type::RIGHT_BRACE, "}"));
    expected.push(create_token(Token_Type::BANG_EQUAL, "!="));
    expected.push(create_token(Token_Type::EQUAL_EQUAL, "=="));
    expected.push(create_token(Token_Type::BANG, "!"));
    expected.push(create_token(Token_Type::GREATER_EQUAL, ">="));
    expected.push(create_token(Token_Type::GREATER, ">"));
    expected.push(create_token(Token_Type::LESS_EQUAL, "<="));
    expected.push(create_token(Token_Type::GREATER, ">"));
    expected.push(create_token(Token_Type::EOF, ""));

    scanner.scan_tokens();
    let matching = scanner
        .tokens
        .iter()
        .zip(&expected)
        .filter(|&(a, b)| a.token_type == b.token_type)
        .count();

    assert_eq!(matching == scanner.tokens.len(), true);
    assert_eq!(scanner.loxr.had_error, false);
}

#[test]
fn should_return_err() {
    let loxr = Loxr::new();
    let mut scanner = Scanner::new("{}dfg{}", loxr);
    scanner.scan_tokens();
    // `dfg` is an ordinary identifier: only a character that matches no
    // category at all is reported as an invalid token.
    assert_eq!(scanner.loxr.had_error, false);
}

#[test]
fn empty_input_yields_only_the_sentinel() {
    let scanner = scan("");
    assert_eq!(scanner.tokens.len(), 1);
    assert_eq!(scanner.tokens[0].token_type, Token_Type::EOF);
    assert_eq!(scanner.tokens[0].lexeme, "");
    assert!(scanner.tokens[0].literal.is_none());
    assert_eq!(scanner.tokens[0].line, 1);
    assert_eq!(scanner.loxr.had_error, false);
}

#[test]
fn punctuation_only_input_gives_one_token_per_character() {
    let source = "(){};,.+*";
    let scanner = scan(source);
    let expected = vec![
        Token_Type::LEFT_PAREN,
        Token_Type::RIGHT_PAREN,
        Token_Type::LEFT_BRACE,
        Token_Type::RIGHT_BRACE,
        Token_Type::SEMICOLON,
        Token_Type::COMMA,
        Token_Type::DOT,
        Token_Type::PLUS,
        Token_Type::STAR,
        Token_Type::EOF,
    ];
    let got: Vec<Token_Type> = scanner.tokens.iter().map(|t| t.token_type).collect();
    assert_eq!(got, expected);
    for (i, token) in scanner.tokens.iter().enumerate() {
        if token.token_type != Token_Type::EOF {
            assert_eq!(token.lexeme, source[i..i + 1]);
            assert_eq!(token.line, 1);
        }
    }
    assert_eq!(scanner.loxr.had_error, false);
}

#[test]
fn operators_take_a_trailing_equal_sign_greedily() {
    assert_eq!(
        kinds("!===!>=><=>"),
        vec![
            Token_Type::BANG_EQUAL,
            Token_Type::EQUAL_EQUAL,
            Token_Type::BANG,
            Token_Type::GREATER_EQUAL,
            Token_Type::GREATER,
            Token_Type::LESS_EQUAL,
            Token_Type::GREATER,
            Token_Type::EOF,
        ]
    );
}

#[test]
fn every_input_ends_with_exactly_one_sentinel() {
    for source in ["", "abc", "\"open", "1 + 2", "/* x", "# $ %", "(((("] {
        let scanner = scan(source);
        let eof_count = scanner
            .tokens
            .iter()
            .filter(|t| t.token_type == Token_Type::EOF)
            .count();
        assert_eq!(eof_count, 1);
        assert_eq!(scanner.tokens.last().unwrap().token_type, Token_Type::EOF);
        assert_eq!(scanner.tokens.last().unwrap().lexeme, "");
    }
}

#[test]
fn line_comment_emits_nothing_and_newline_counts() {
    let scanner = scan("// anything\nx");
    assert_eq!(scanner.tokens.len(), 2);
    assert_eq!(scanner.tokens[0].token_type, Token_Type::IDENTIFIER);
    assert_eq!(scanner.tokens[0].lexeme, "x");
    assert_eq!(scanner.tokens[0].line, 2);
    assert_eq!(scanner.loxr.had_error, false);
}

#[test]
fn line_comment_at_end_of_input() {
    let scanner = scan("// just a comment");
    assert_eq!(scanner.tokens.len(), 1);
    assert_eq!(scanner.tokens[0].token_type, Token_Type::EOF);
    assert_eq!(scanner.loxr.had_error, false);
}

#[test]
fn block_comment_spans_lines_and_counts_them() {
    let scanner = scan("/* spans \n two lines */x");
    assert_eq!(scanner.tokens.len(), 2);
    assert_eq!(scanner.tokens[0].token_type, Token_Type::IDENTIFIER);
    assert_eq!(scanner.tokens[0].lexeme, "x");
    assert_eq!(scanner.tokens[0].line, 2);
    assert_eq!(scanner.loxr.had_error, false);
}

#[test]
fn unterminated_block_comment_is_reported() {
    let scanner = scan("/* abc");
    assert_eq!(scanner.tokens.len(), 1);
    assert_eq!(scanner.tokens[0].token_type, Token_Type::EOF);
    assert_eq!(scanner.loxr.had_error, true);
    assert_eq!(scanner.loxr.diagnostics.len(), 1);
    assert_eq!(scanner.loxr.diagnostics[0].message, "No ending to block comment");
}

#[test]
fn bare_slash_is_a_division_token() {
    assert_eq!(
        kinds("a/b"),
        vec![Token_Type::IDENTIFIER, Token_Type::SLASH, Token_Type::IDENTIFIER, Token_Type::EOF]
    );
}

#[test]
fn unterminated_string_sets_flag_and_reaches_sentinel() {
    let scanner = scan("\"abc");
    assert_eq!(scanner.loxr.had_error, true);
    assert_eq!(scanner.loxr.diagnostics.len(), 1);
    assert_eq!(scanner.loxr.diagnostics[0].message, "Unterminated string");
    assert_eq!(scanner.tokens.len(), 1);
    assert_eq!(scanner.tokens[0].token_type, Token_Type::EOF);
}

#[test]
fn string_literal_carries_the_text_between_the_quotes() {
    let scanner = scan("\"hello\"");
    assert_eq!(scanner.tokens.len(), 2);
    assert_eq!(scanner.tokens[0].token_type, Token_Type::STRING);
    assert_eq!(scanner.tokens[0].lexeme, "\"hello\"");
    assert_eq!(
        scanner.tokens[0].literal,
        Some(Literal::STRING("hello".to_string()))
    );
    assert_eq!(scanner.loxr.had_error, false);
}

#[test]
fn multi_line_string_moves_the_line_counter() {
    let scanner = scan("\"a\nb\"x");
    assert_eq!(scanner.tokens[0].token_type, Token_Type::STRING);
    assert_eq!(
        scanner.tokens[0].literal,
        Some(Literal::STRING("a\nb".to_string()))
    );
    assert_eq!(scanner.tokens[0].line, 2);
    assert_eq!(scanner.tokens[1].token_type, Token_Type::IDENTIFIER);
    assert_eq!(scanner.tokens[1].line, 2);
}

#[test]
fn number_literal_round_trips_with_a_fraction() {
    let scanner = scan("123.456");
    assert_eq!(scanner.tokens.len(), 2);
    assert_eq!(scanner.tokens[0].token_type, Token_Type::NUMBER);
    match &scanner.tokens[0].literal {
        Some(Literal::NUM(text)) => {
            let value: f64 = text.parse().unwrap();
            assert!((value - 123.456).abs() < 1e-9);
        }
        other => panic!("expected a number literal, got {:?}", other),
    }
    assert_eq!(scanner.loxr.had_error, false);
}

#[test]
fn number_literal_round_trips_without_a_fraction() {
    let scanner = scan("123");
    assert_eq!(scanner.tokens[0].token_type, Token_Type::NUMBER);
    match &scanner.tokens[0].literal {
        Some(Literal::NUM(text)) => {
            let value: f64 = text.parse().unwrap();
            assert!((value - 123.0).abs() < 1e-9);
        }
        other => panic!("expected a number literal, got {:?}", other),
    }
}

#[test]
fn dot_not_followed_by_digit_stays_outside_the_number() {
    let scanner = scan("123.");
    assert_eq!(
        scanner.tokens.iter().map(|t| t.token_type).collect::<Vec<_>>(),
        vec![Token_Type::NUMBER, Token_Type::DOT, Token_Type::EOF]
    );
    assert_eq!(scanner.tokens[0].lexeme, "123");
}

#[test]
fn every_keyword_scans_to_its_dedicated_kind() {
    let table = [
        ("and", Token_Type::AND),
        ("class", Token_Type::CLASS),
        ("else", Token_Type::ELSE),
        ("false", Token_Type::FALSE),
        ("for", Token_Type::FOR),
        ("fun", Token_Type::FUN),
        ("if", Token_Type::IF),
        ("nil", Token_Type::NIL),
        ("or", Token_Type::OR),
        ("print", Token_Type::PRINT),
        ("return", Token_Type::RETURN),
        ("super", Token_Type::SUPER),
        ("this", Token_Type::THIS),
        ("true", Token_Type::TRUE),
        ("var", Token_Type::VAR),
        ("while", Token_Type::WHILE),
    ];
    for (word, kind) in table {
        let scanner = scan(word);
        assert_eq!(scanner.tokens.len(), 2);
        assert_eq!(scanner.tokens[0].token_type, kind);
        assert_eq!(scanner.tokens[0].lexeme, word);
        assert!(scanner.tokens[0].literal.is_none());
        assert_eq!(keywords(word), Some(kind));
    }
}

#[test]
fn other_alphanumeric_runs_scan_to_identifier() {
    for word in ["andy", "dfg", "x1", "Return", "nil2"] {
        let scanner = scan(word);
        assert_eq!(scanner.tokens.len(), 2);
        assert_eq!(scanner.tokens[0].token_type, Token_Type::IDENTIFIER);
        assert_eq!(scanner.tokens[0].lexeme, word);
        assert_eq!(keywords(word), None);
    }
}

#[test]
fn invalid_character_is_reported_and_skipped() {
    let scanner = scan("#");
    assert_eq!(scanner.tokens.len(), 1);
    assert_eq!(scanner.tokens[0].token_type, Token_Type::EOF);
    assert_eq!(scanner.loxr.had_error, true);
    assert_eq!(scanner.loxr.diagnostics.len(), 1);
    assert_eq!(scanner.loxr.diagnostics[0].line, 1);
    assert_eq!(scanner.loxr.diagnostics[0].message, "Invalid token");
    assert_eq!(scanner.loxr.diagnostics[0].pos, "");
}

#[test]
fn minus_has_no_dispatch_entry_and_is_reported() {
    let scanner = scan("-");
    assert_eq!(scanner.tokens.len(), 1);
    assert_eq!(scanner.tokens[0].token_type, Token_Type::EOF);
    assert_eq!(scanner.loxr.had_error, true);
    assert_eq!(scanner.loxr.diagnostics[0].message, "Invalid token");
}

#[test]
fn whitespace_is_consumed_silently_and_newline_counts() {
    let scanner = scan(" \r\t\n(");
    assert_eq!(scanner.tokens.len(), 2);
    assert_eq!(scanner.tokens[0].token_type, Token_Type::LEFT_PAREN);
    assert_eq!(scanner.tokens[0].line, 2);
    assert_eq!(scanner.loxr.had_error, false);
}

#[test]
fn scanning_continues_past_errors_to_report_them_all() {
    let scanner = scan("# (\n$ )");
    assert_eq!(
        scanner.tokens.iter().map(|t| t.token_type).collect::<Vec<_>>(),
        vec![Token_Type::LEFT_PAREN, Token_Type::RIGHT_PAREN, Token_Type::EOF]
    );
    assert_eq!(scanner.loxr.diagnostics.len(), 2);
    assert_eq!(scanner.loxr.diagnostics[0].line, 1);
    assert_eq!(scanner.loxr.diagnostics[1].line, 2);
}
