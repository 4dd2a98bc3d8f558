use rulox::ast::ast_printer::AstPrinter;
use rulox::ast::expr::Expr;
use rulox::ast::visitor::Visitor;
use rulox::parser::{ParseError, Parser};
use rulox::scanner::scan_tokens;
use rulox::token::{Number, Token, TokenLiteral, TokenType};

fn parse(source: &str) -> Result<Expr, ParseError> {
    let mut parser = Parser::new(scan_tokens(source).unwrap());
    parser.parse()
}

fn show(source: &str) -> String {
    AstPrinter {}.print(parse(source).unwrap())
}

#[test]
fn multiplication_binds_tighter_than_addition() {
    assert_eq!(show("1 + 2 * 3"), "(+ 1 (* 2 3))");
    assert_eq!(show("1 * 2 + 3"), "(+ (* 1 2) 3)");
}

#[test]
fn grouping_is_kept() {
    assert_eq!(show("(1 + 2) * 3"), "(* (group (+ 1 2)) 3)");
    assert_eq!(show("((1))"), "(group (group 1))");
}

#[test]
fn subtraction_is_left_associative() {
    assert_eq!(show("1 - 2 - 3"), "(- (- 1 2) 3)");
    match parse("1 - 2 - 3").unwrap() {
        Expr::Binary { left, right, operator } => {
            assert_eq!(operator.token_type, TokenType::Minus);
            assert!(matches!(*left, Expr::Binary { .. }));
            assert!(matches!(*right, Expr::Literal { .. }));
        }
        _ => panic!("not a binary node"),
    }
}

#[test]
fn every_level_has_its_operators() {
    assert_eq!(show("1 == 2 != 3"), "(!= (== 1 2) 3)");
    assert_eq!(show("1 < 2 <= 3 > 4 >= 5"), "(>= (> (<= (< 1 2) 3) 4) 5)");
    assert_eq!(show("1 + 2 - 3"), "(- (+ 1 2) 3)");
    assert_eq!(show("1 / 2 * 3"), "(* (/ 1 2) 3)");
    assert_eq!(show("1 + 2 < 3 * 4 == true"), "(== (< (+ 1 2) (* 3 4)) true)");
}

#[test]
fn unary_operators_nest_to_the_right() {
    assert_eq!(show("-1"), "(- 1)");
    assert_eq!(show("!!true"), "(! (! true))");
    assert_eq!(show("-1 - -2"), "(- (- 1) (- 2))");
    assert_eq!(show("!(1 == 2)"), "(! (group (== 1 2)))");
}

#[test]
fn primaries_print_their_value() {
    assert_eq!(show("nil"), "nil");
    assert_eq!(show("true"), "true");
    assert_eq!(show("false"), "false");
    assert_eq!(show("\"hi there\""), "hi there");
    assert_eq!(show("2.50"), "2.5");
    assert_eq!(show("\"a\" + \"b\""), "(+ a b)");
}

#[test]
fn what_follows_the_expression_is_left_alone() {
    assert_eq!(show("1 2"), "1");
    assert_eq!(show("1 + 2 )"), "(+ 1 2)");
}

#[test]
fn a_token_that_starts_no_expression_is_an_error() {
    assert_eq!(parse("").unwrap_err(), ParseError::ExpectedExpression { line: 1 });
    assert_eq!(parse("+").unwrap_err(), ParseError::ExpectedExpression { line: 1 });
    assert_eq!(parse("1 +\n").unwrap_err(), ParseError::ExpectedExpression { line: 2 });
    assert_eq!(parse("1 *\n\n;").unwrap_err(), ParseError::ExpectedExpression { line: 3 });
    assert_eq!(parse("()").unwrap_err(), ParseError::ExpectedExpression { line: 1 });
    assert_eq!(parse("-").unwrap_err(), ParseError::ExpectedExpression { line: 1 });
    assert_eq!(parse("x").unwrap_err(), ParseError::ExpectedExpression { line: 1 });
}

#[test]
fn a_group_without_its_end_is_an_error() {
    assert_eq!(parse("(1 + 2").unwrap_err(), ParseError::UnclosedGroup { line: 1 });
    assert_eq!(parse("(1\n+ 2\n3").unwrap_err(), ParseError::UnclosedGroup { line: 3 });
    assert_eq!(parse("((1)").unwrap_err(), ParseError::UnclosedGroup { line: 1 });
}

#[test]
fn tokens_without_an_end_of_file_token_are_parsed_too() {
    let one = Token::new(
        TokenType::Number,
        "1".to_string(),
        Some(TokenLiteral::from_number(Number::from_digits("1", ""))),
        7,
    );
    let plus = Token::new(TokenType::Plus, "+".to_string(), None, 7);
    let mut parser = Parser::new(vec![one.clone(), plus.clone(), one.clone()]);
    assert_eq!(AstPrinter {}.print(parser.parse().unwrap()), "(+ 1 1)");
    let mut short = Parser::new(vec![one, plus]);
    assert_eq!(short.parse().unwrap_err(), ParseError::ExpectedExpression { line: 7 });
    let mut none = Parser::new(Vec::new());
    assert_eq!(none.parse().unwrap_err(), ParseError::ExpectedExpression { line: 0 });
}

#[test]
fn printer_writes_handmade_trees() {
    let minus = Token::new(TokenType::Minus, "-".to_string(), None, 1);
    let star = Token::new(TokenType::Star, "*".to_string(), None, 1);
    let tree = Expr::Binary {
        left: Box::new(Expr::Unary {
            operator: minus,
            right: Box::new(Expr::Literal {
                value: Some(TokenLiteral::from_number(Number::from_digits("123", ""))),
            }),
        }),
        operator: star,
        right: Box::new(Expr::Grouping {
            expression: Box::new(Expr::Literal {
                value: Some(TokenLiteral::from_number(Number::from_digits("45", "67"))),
            }),
        }),
    };
    assert_eq!(AstPrinter {}.print(tree), "(* (- 123) (group 45.67))");
    assert_eq!(AstPrinter {}.print(Expr::Literal { value: None }), "nil");
}

struct Counter {}

impl Visitor<usize> for Counter {
    fn visit_binary_expr(&self, left: &Box<Expr>, right: &Box<Expr>, _operator: &Token) -> usize {
        1 + left.accept(self) + right.accept(self)
    }

    fn visit_grouping(&self, expression: &Box<Expr>) -> usize {
        1 + expression.accept(self)
    }

    fn visit_literal_expr(&self, _value: &Option<TokenLiteral>) -> usize {
        1
    }

    fn visit_unary_expr(&self, _operator: &Token, right: &Box<Expr>) -> usize {
        1 + right.accept(self)
    }
}

#[test]
fn accept_dispatches_on_the_kind_of_node() {
    let tree = parse("(1 + 2) * -3").unwrap();
    assert_eq!(tree.accept(&Counter {}), 7);
    assert_eq!(parse("nil").unwrap().accept(&Counter {}), 1);
    let printer = AstPrinter {};
    assert_eq!(tree.accept::<String>(&printer), "(* (group (+ 1 2)) (- 3))");
}
