use rulox::report::{parse_error_message, scan_error_message, RuLox, EXIT_STATIC_ERROR, EXIT_USAGE};
use rulox::parser::ParseError;
use rulox::scanner::{scan_tokens, ScanError};
use rulox::text::decimal;
use rulox::token::{Number, Token, TokenLiteral, TokenType};

#[test]
fn token_new_keeps_its_parts() {
    let token = Token::new(
        TokenType::String,
        "\"a\"".to_string(),
        Some(TokenLiteral::from_string("a")),
        4,
    );
    assert_eq!(token.token_type, TokenType::String);
    assert_eq!(token.lexeme, "\"a\"");
    assert_eq!(token.literal.as_ref().unwrap().string_val(), Some(&"a".to_string()));
    assert_eq!(token.line, 4);
    let copy = token.clone();
    assert_eq!(copy.lexeme, token.lexeme);
    assert_eq!(copy.line, 4);
    assert_eq!(copy.literal.unwrap().to_text(), "a");
}

#[test]
fn token_text_has_type_lexeme_and_literal() {
    let tokens = scan_tokens("1.50 + \"hi\" nil").unwrap();
    assert_eq!(tokens[0].to_text(), "Number 1.50 1.5");
    assert_eq!(tokens[1].to_text(), "Plus + ");
    assert_eq!(tokens[2].to_text(), "String \"hi\" hi");
    assert_eq!(tokens[3].to_text(), "Nil nil ");
    assert_eq!(tokens[4].to_text(), "Eof  ");
}

#[test]
fn token_type_names() {
    assert_eq!(TokenType::LeftParen.name(), "LeftParen");
    assert_eq!(TokenType::GreaterEqual.name(), "GreaterEqual");
    assert_eq!(TokenType::While.name(), "While");
    assert_eq!(TokenType::Eof.name(), "Eof");
    assert_eq!(TokenType::Identifier.name(), format!("{:?}", TokenType::Identifier));
}

#[test]
fn literal_holds_exactly_one_value() {
    let text = TokenLiteral::from_string("12");
    assert_eq!(text.string_val(), Some(&"12".to_string()));
    assert!(text.num_val().is_none());
    assert_eq!(text.to_text(), "12");
    let number = TokenLiteral::from_number(Number::from_digits("12", "5"));
    assert!(number.string_val().is_none());
    assert_eq!(number.num_val().unwrap().to_text(), "12.5");
    assert_eq!(number.to_text(), "12.5");
    assert_eq!(number.clone().to_text(), "12.5");
}

#[test]
fn number_drops_zeros_that_change_nothing() {
    assert_eq!(Number::from_digits("0012", "3400").to_text(), "12.34");
    assert_eq!(Number::from_digits("0", "0").to_text(), "0");
    assert_eq!(Number::from_digits("000", "").to_text(), "0");
    assert_eq!(Number::from_digits("10", "01").to_text(), "10.01");
    assert_eq!(Number::from_digits("100", "").to_text(), "100");
    assert_eq!(Number::from_digits("5", "").to_text().parse::<f64>().unwrap(), 5.0);
}

#[test]
fn decimal_numerals() {
    assert_eq!(decimal(0), "0");
    assert_eq!(decimal(7), "7");
    assert_eq!(decimal(10), "10");
    assert_eq!(decimal(1209), "1209");
    assert_eq!(decimal(usize::MAX), usize::MAX.to_string());
}

#[test]
fn report_sets_the_flag_and_gives_the_text() {
    let mut state = RuLox::new();
    assert!(!state.had_error());
    assert_eq!(state.exit_status(), None);
    assert_eq!(state.error(12, "Unexpected thing."), "[line 12] Error: Unexpected thing.");
    assert!(state.had_error());
    assert_eq!(state.exit_status(), Some(65));
    state.reset();
    assert!(!state.had_error());
    assert_eq!(state.report(3, " at end", "Expect expression."), "[line 3] Error at end: Expect expression.");
    assert!(state.had_error());
    assert_eq!(EXIT_STATIC_ERROR, 65);
    assert_eq!(EXIT_USAGE, 64);
}

#[test]
fn scan_errors_are_reported_with_their_line() {
    let unexpected = ScanError::UnexpectedCharacter { line: 3, ch: '@' };
    assert_eq!(scan_error_message(unexpected), "Unexpected character '@' at line 3.");
    let unterminated = ScanError::UnterminatedString { line: 10 };
    assert_eq!(scan_error_message(unterminated), "Unterminated string at line 10.");
    let mut state = RuLox::new();
    assert_eq!(state.scan_error(unexpected), "[line 3] Error: Unexpected character '@' at line 3.");
    assert!(state.had_error());
    let mut other = RuLox::new();
    assert_eq!(other.scan_error(unterminated), "[line 10] Error: Unterminated string at line 10.");
}

#[test]
fn parse_errors_are_reported_with_their_line() {
    let expected = ParseError::ExpectedExpression { line: 2 };
    let unclosed = ParseError::UnclosedGroup { line: 5 };
    assert_eq!(parse_error_message(expected), "Expect expression.");
    assert_eq!(parse_error_message(unclosed), "Expect ')' after expression.");
    let mut state = RuLox::new();
    assert_eq!(state.parse_error(unclosed), "[line 5] Error: Expect ')' after expression.");
    assert!(state.had_error());
    let mut other = RuLox::new();
    assert_eq!(other.parse_error(expected), "[line 2] Error: Expect expression.");
}
