use minilang::ast::program_to_string;
use minilang::parser::Parser;
use minilang::scanner::Tokenizer;
use minilang::token::{LiteralValue, Token, TokenKind};

fn parse_source(src: &str) -> Result<Vec<minilang::ast::Stmt>, String> {
    let mut tokenizer = Tokenizer::new(src);
    let tokens = tokenizer.tokenize().unwrap();
    let mut parser = Parser::new(tokens);
    parser.parse()
}

#[test]
fn test_addition() {
    let one = Token {
        kind: TokenKind::Number,
        lexeme: String::from("1"),
        literal: Some(LiteralValue::Number(1)),
        line: 0,
    };
    let plus = Token {
        kind: TokenKind::Plus,
        lexeme: String::from("+"),
        literal: None,
        line: 0,
    };
    let two = Token {
        kind: TokenKind::Number,
        lexeme: String::from("2"),
        literal: Some(LiteralValue::Number(2)),
        line: 0,
    };
    let semi = Token {
        kind: TokenKind::Semicolon,
        lexeme: String::from(";"),
        literal: None,
        line: 0,
    };
    let eof = Token {
        kind: TokenKind::Eof,
        lexeme: String::new(),
        literal: None,
        line: 0,
    };

    let tokens = vec![one, plus, two, semi, eof];
    let mut parser = Parser::new(tokens);

    let parsed_expr = parser.parse().unwrap();
    let string_expr = program_to_string(&parsed_expr);

    assert_eq!(string_expr, "(+ 1 2)");
}

#[test]
fn test_equality_with_paren() {
    let src = "1 == (2 + 3)";

    let mut tokenizer = Tokenizer::new(src);

    let tokens = tokenizer.tokenize().unwrap();

    let mut parser = Parser::new(tokens);

    let parsed_expr = parser.expression().unwrap();
    let string_expr = parsed_expr.to_display();

    assert_eq!(string_expr, "(== 1 (group (+ 2 3)))")
}

#[test]
fn precedence_of_star_over_plus() {
    let stmts = parse_source("1 + 2 * 3;").unwrap();
    assert_eq!(program_to_string(&stmts), "(+ 1 (* 2 3))");
}

#[test]
fn left_associativity_of_minus() {
    let stmts = parse_source("1 - 2 - 3;").unwrap();
    assert_eq!(program_to_string(&stmts), "(- (- 1 2) 3)");
}

#[test]
fn grouping_is_preserved_in_rendering() {
    let stmts = parse_source("(2 + 3);").unwrap();
    assert_eq!(program_to_string(&stmts), "(group (+ 2 3))");
}

#[test]
fn invalid_assignment_target_is_rejected() {
    let err = parse_source("1 = 2;").unwrap_err();
    assert_eq!(err, "Invalid assignment target");
}

#[test]
fn let_without_initializer_renders_null() {
    let stmts = parse_source("let x;").unwrap();
    assert_eq!(program_to_string(&stmts), "(let x null)");
}

#[test]
fn two_errors_are_both_reported_and_recovered() {
    let err = parse_source("let ; let ok = 1; + 2;").unwrap_err();
    assert_eq!(err, "Expected variable name\nExpected expression");
}

#[test]
fn missing_semicolon_is_reported() {
    let err = parse_source("print 1").unwrap_err();
    assert_eq!(err, "Expected ';' after value");
    let err = parse_source("1 + 2").unwrap_err();
    assert_eq!(err, "Expected ';' after expression");
    let err = parse_source("let x = 1").unwrap_err();
    assert_eq!(err, "Expected ';' after variable declaration");
}

#[test]
fn missing_close_paren_is_reported() {
    let err = parse_source("(1 + 2;").unwrap_err();
    assert_eq!(err, "Expected ')'");
}

#[test]
fn scanner_rejects_stray_characters() {
    let mut tokenizer = Tokenizer::new("1 @ 2;");
    assert_eq!(tokenizer.tokenize().unwrap_err(), "Unexpected character");
}

#[test]
fn scanner_rejects_unterminated_string() {
    let mut tokenizer = Tokenizer::new("\"abc");
    assert_eq!(tokenizer.tokenize().unwrap_err(), "Unterminated string");
}

#[test]
fn scanner_rejects_oversized_number() {
    let mut tokenizer = Tokenizer::new("99999999999999999999;");
    assert_eq!(tokenizer.tokenize().unwrap_err(), "Number literal too large");
}
