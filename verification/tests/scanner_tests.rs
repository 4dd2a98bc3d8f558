use rulox::scanner::{keyword_type, scan_tokens, ScanError, Scanner};
use rulox::token::{Token, TokenType};

fn kinds(source: &str) -> Vec<TokenType> {
    scan_tokens(source).unwrap().iter().map(|t| t.token_type).collect()
}

fn lexemes(source: &str) -> Vec<String> {
    scan_tokens(source).unwrap().iter().map(|t| t.lexeme.clone()).collect()
}

fn literal_text(t: &Token) -> Option<String> {
    t.literal.as_ref().map(|l| l.to_text())
}

#[test]
fn operators_keep_their_exact_lexeme() {
    let table = vec![
        ("!", TokenType::Bang),
        ("!=", TokenType::BangEqual),
        ("=", TokenType::Equal),
        ("==", TokenType::EqualEqual),
        ("<", TokenType::Less),
        ("<=", TokenType::LessEqual),
        (">", TokenType::Greater),
        (">=", TokenType::GreaterEqual),
        ("-", TokenType::Minus),
        ("+", TokenType::Plus),
        ("/", TokenType::Slash),
        ("*", TokenType::Star),
    ];
    for (text, kind) in table {
        let tokens = scan_tokens(text).unwrap();
        assert_eq!(tokens.len(), 2);
        assert_eq!(tokens[0].token_type, kind);
        assert_eq!(tokens[0].lexeme, text);
        assert!(tokens[0].literal.is_none());
        assert_eq!(tokens[0].line, 1);
        assert_eq!(tokens[1].token_type, TokenType::Eof);
        assert_eq!(tokens[1].lexeme, "");
    }
}

#[test]
fn punctuation_maps_one_to_one() {
    assert_eq!(
        kinds("(){},.;"),
        vec![
            TokenType::LeftParen,
            TokenType::RightParen,
            TokenType::LeftBrace,
            TokenType::RightBrace,
            TokenType::Comma,
            TokenType::Dot,
            TokenType::Semicolon,
            TokenType::Eof,
        ]
    );
}

#[test]
fn two_char_operator_falls_back_to_one_char() {
    assert_eq!(
        kinds("!a =b <c >d"),
        vec![
            TokenType::Bang,
            TokenType::Identifier,
            TokenType::Equal,
            TokenType::Identifier,
            TokenType::Less,
            TokenType::Identifier,
            TokenType::Greater,
            TokenType::Identifier,
            TokenType::Eof,
        ]
    );
    assert_eq!(lexemes("==="), vec!["==", "=", ""]);
}

#[test]
fn string_over_three_lines_advances_line_by_two() {
    let tokens = scan_tokens("\"one\ntwo\nthree\" x").unwrap();
    assert_eq!(tokens.len(), 3);
    assert_eq!(tokens[0].token_type, TokenType::String);
    assert_eq!(tokens[0].lexeme, "\"one\ntwo\nthree\"");
    assert_eq!(literal_text(&tokens[0]), Some("one\ntwo\nthree".to_string()));
    assert_eq!(tokens[0].line, 3);
    assert_eq!(tokens[1].line, 3);
    assert_eq!(tokens[2].line, 3);
}

#[test]
fn string_literal_holds_text_without_quotes() {
    let tokens = scan_tokens("\"abc\"").unwrap();
    assert_eq!(tokens[0].token_type, TokenType::String);
    assert_eq!(tokens[0].lexeme, "\"abc\"");
    let literal = tokens[0].literal.as_ref().unwrap();
    assert_eq!(literal.string_val(), Some(&"abc".to_string()));
    assert!(literal.num_val().is_none());
    let empty = scan_tokens("\"\"").unwrap();
    assert_eq!(literal_text(&empty[0]), Some(String::new()));
}

#[test]
fn unterminated_string_is_an_error_at_the_last_line() {
    assert_eq!(scan_tokens("\"abc").unwrap_err(), ScanError::UnterminatedString { line: 1 });
    assert_eq!(scan_tokens("\"abc\ndef\n").unwrap_err(), ScanError::UnterminatedString { line: 3 });
    assert_eq!(scan_tokens("1\n\"abc").unwrap_err(), ScanError::UnterminatedString { line: 2 });
    assert_eq!(scan_tokens("\"").unwrap_err(), ScanError::UnterminatedString { line: 1 });
}

#[test]
fn unexpected_character_is_an_error() {
    assert_eq!(scan_tokens("@").unwrap_err(), ScanError::UnexpectedCharacter { ch: '@', line: 1 });
    assert_eq!(scan_tokens("1\n\n #").unwrap_err(), ScanError::UnexpectedCharacter { ch: '#', line: 3 });
    assert_eq!(scan_tokens("\u{e9}").unwrap_err(), ScanError::UnexpectedCharacter { ch: '\u{e9}', line: 1 });
    assert_eq!(scan_tokens("\0").unwrap_err(), ScanError::UnexpectedCharacter { ch: '\0', line: 1 });
}

#[test]
fn classroom_is_one_identifier() {
    let tokens = scan_tokens("classroom").unwrap();
    assert_eq!(tokens.len(), 2);
    assert_eq!(tokens[0].token_type, TokenType::Identifier);
    assert_eq!(tokens[0].lexeme, "classroom");
    assert!(tokens[0].literal.is_none());
    assert_eq!(tokens[1].token_type, TokenType::Eof);
}

#[test]
fn identifiers_take_underscores_and_digits() {
    assert_eq!(lexemes("_a1 b_2c"), vec!["_a1", "b_2c", ""]);
    assert_eq!(kinds("_a1 b_2c"), vec![TokenType::Identifier, TokenType::Identifier, TokenType::Eof]);
    assert_eq!(kinds("or_"), vec![TokenType::Identifier, TokenType::Eof]);
}

#[test]
fn every_keyword_is_recognised() {
    let table = vec![
        ("and", TokenType::And),
        ("class", TokenType::Class),
        ("else", TokenType::Else),
        ("false", TokenType::False),
        ("for", TokenType::For),
        ("fun", TokenType::Fun),
        ("if", TokenType::If),
        ("nil", TokenType::Nil),
        ("or", TokenType::Or),
        ("print", TokenType::Print),
        ("return", TokenType::Return),
        ("super", TokenType::Super),
        ("this", TokenType::This),
        ("true", TokenType::True),
        ("var", TokenType::Var),
        ("while", TokenType::While),
    ];
    for (text, kind) in table {
        assert_eq!(keyword_type(text), Some(kind));
        assert_eq!(kinds(text), vec![kind, TokenType::Eof]);
    }
    assert_eq!(keyword_type("classroom"), None);
    assert_eq!(keyword_type("An"), None);
    assert_eq!(keyword_type(""), None);
}

#[test]
fn line_comment_gives_no_token() {
    let tokens = scan_tokens("1 // comment\n2").unwrap();
    assert_eq!(tokens.len(), 3);
    assert_eq!(tokens[0].token_type, TokenType::Number);
    assert_eq!(tokens[0].lexeme, "1");
    assert_eq!(tokens[0].line, 1);
    assert_eq!(tokens[1].token_type, TokenType::Number);
    assert_eq!(tokens[1].lexeme, "2");
    assert_eq!(tokens[1].line, 2);
    assert_eq!(tokens[2].token_type, TokenType::Eof);
    assert_eq!(tokens[2].line, 2);
}

#[test]
fn block_comment_gives_no_token_and_counts_lines() {
    let tokens = scan_tokens("1 /* a\n * b\n */ 2").unwrap();
    assert_eq!(lexemes("1 /* a\n * b\n */ 2"), vec!["1", "2", ""]);
    assert_eq!(tokens[0].line, 1);
    assert_eq!(tokens[1].line, 3);
    assert_eq!(lexemes("/**/1"), vec!["1", ""]);
    assert_eq!(lexemes("/***/1"), vec!["1", ""]);
}

#[test]
fn block_comment_without_end_stops_at_end_of_input() {
    assert_eq!(kinds("1 /* abc"), vec![TokenType::Number, TokenType::Eof]);
    assert_eq!(kinds("/*"), vec![TokenType::Eof]);
    assert_eq!(kinds("/*/"), vec![TokenType::Eof]);
    assert_eq!(kinds("/* *"), vec![TokenType::Eof]);
    let tokens = scan_tokens("/* a\nb").unwrap();
    assert_eq!(tokens[0].line, 2);
}

#[test]
fn slash_alone_is_a_token() {
    assert_eq!(kinds("1 / 2"), vec![TokenType::Number, TokenType::Slash, TokenType::Number, TokenType::Eof]);
    assert_eq!(kinds("/"), vec![TokenType::Slash, TokenType::Eof]);
}

#[test]
fn white_space_is_dropped() {
    assert_eq!(kinds(" \t\r\n"), vec![TokenType::Eof]);
    let tokens = scan_tokens(" \t\r\n").unwrap();
    assert_eq!(tokens[0].line, 2);
    assert_eq!(kinds(""), vec![TokenType::Eof]);
    assert_eq!(scan_tokens("").unwrap()[0].line, 1);
}

#[test]
fn numbers_take_a_point_only_before_a_digit() {
    assert_eq!(lexemes("12.5"), vec!["12.5", ""]);
    assert_eq!(lexemes("12."), vec!["12", ".", ""]);
    assert_eq!(kinds("12."), vec![TokenType::Number, TokenType::Dot, TokenType::Eof]);
    assert_eq!(lexemes("1.2.3"), vec!["1.2", ".", "3", ""]);
    assert_eq!(lexemes("12.a"), vec!["12", ".", "a", ""]);
    assert_eq!(kinds(".5"), vec![TokenType::Dot, TokenType::Number, TokenType::Eof]);
}

#[test]
fn number_literal_is_in_natural_decimal_form() {
    let text = |source: &str| literal_text(&scan_tokens(source).unwrap()[0]);
    assert_eq!(text("1"), Some("1".to_string()));
    assert_eq!(text("12.5"), Some("12.5".to_string()));
    assert_eq!(text("1.50"), Some("1.5".to_string()));
    assert_eq!(text("1.0"), Some("1".to_string()));
    assert_eq!(text("007"), Some("7".to_string()));
    assert_eq!(text("0"), Some("0".to_string()));
    assert_eq!(text("000.000"), Some("0".to_string()));
    assert_eq!(text("0.05"), Some("0.05".to_string()));
    let tokens = scan_tokens("1.50").unwrap();
    let literal = tokens[0].literal.as_ref().unwrap();
    assert!(literal.string_val().is_none());
    assert_eq!(literal.num_val().unwrap().to_text(), "1.5");
    assert_eq!(literal.num_val().unwrap().to_text().parse::<f64>().unwrap(), 1.5);
}

#[test]
fn two_scanners_give_the_same_tokens() {
    let source = "var a = (1 + 2.5) * \"x\ny\"; // done\nprint a != nil;";
    let mut first = Scanner::new(source);
    let mut second = Scanner::new(source);
    loop {
        let a = first.next();
        let b = second.next();
        match (a, b) {
            (None, None) => break,
            (Some(Ok(x)), Some(Ok(y))) => {
                assert_eq!(x.token_type, y.token_type);
                assert_eq!(x.lexeme, y.lexeme);
                assert_eq!(x.line, y.line);
                assert_eq!(literal_text(&x), literal_text(&y));
            }
            _ => panic!("the scanners disagree"),
        }
    }
    assert_eq!(format!("{:?}", scan_tokens(source)), format!("{:?}", scan_tokens(source)));
}

#[test]
fn scanner_ends_with_exactly_one_eof() {
    let mut scanner = Scanner::new("a");
    let first = scanner.next().unwrap().unwrap();
    assert_eq!(first.token_type, TokenType::Identifier);
    let second = scanner.next().unwrap().unwrap();
    assert_eq!(second.token_type, TokenType::Eof);
    assert_eq!(second.lexeme, "");
    assert!(second.literal.is_none());
    assert!(scanner.next().is_none());
    assert!(scanner.next().is_none());
}

#[test]
fn scanner_stops_after_an_error() {
    let mut scanner = Scanner::new("a @ b");
    assert_eq!(scanner.next().unwrap().unwrap().lexeme, "a");
    assert_eq!(scanner.next().unwrap().unwrap_err(), ScanError::UnexpectedCharacter { ch: '@', line: 1 });
    assert!(scanner.next().is_none());
}

#[test]
fn lexemes_with_wide_characters_are_cut_by_character() {
    let tokens = scan_tokens("\"h\u{e9}\u{4e16}\" + x").unwrap();
    assert_eq!(tokens[0].lexeme, "\"h\u{e9}\u{4e16}\"");
    assert_eq!(literal_text(&tokens[0]), Some("h\u{e9}\u{4e16}".to_string()));
    assert_eq!(tokens[1].lexeme, "+");
    assert_eq!(tokens[2].lexeme, "x");
}

#[test]
fn try_new_takes_every_text_that_fits() {
    let mut scanner = Scanner::try_new("a\nb").unwrap();
    assert_eq!(scanner.next().unwrap().unwrap().line, 1);
    assert_eq!(scanner.next().unwrap().unwrap().line, 2);
    assert_eq!(scanner.next().unwrap().unwrap().token_type, TokenType::Eof);
    assert!(scanner.next().is_none());
    assert!(Scanner::try_new("").is_some());
}
