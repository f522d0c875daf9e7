use treewalk::enums::{BinOp, ComparisonOp, Expr, Statement, Syntax, Token};
use treewalk::errors::ParseError;
use treewalk::parser::{parser, Parser};
use treewalk::scanner::scanner;

fn parse(source: &str) -> Result<Statement, ParseError> {
    match parser(scanner(source).unwrap()) {
        Ok(Syntax::Statement(st)) => Ok(st),
        Err(e) => Err(e),
    }
}

fn num(n: i32) -> Expr {
    Expr::Number(n)
}

fn var(s: &str) -> Expr {
    Expr::Var(s.to_string())
}

fn bin(op: BinOp, l: Expr, r: Expr) -> Expr {
    Expr::Binary { op, lhs: Box::new(l), rhs: Box::new(r) }
}

fn rel(op: ComparisonOp, l: Expr, r: Expr) -> Expr {
    Expr::Comparison { op, lhs: Box::new(l), rhs: Box::new(r) }
}

fn assign(id: &str, e: Expr) -> Statement {
    Statement::Assign { id: id.to_string(), e: Box::new(e) }
}

fn seq(a: Statement, b: Statement) -> Statement {
    Statement::CompoundStatement { st1: Box::new(a), st2: Box::new(b) }
}

#[test]
fn multiplication_binds_tighter_than_addition() {
    assert_eq!(
        parse("x = 1 + 2 * 3"),
        Ok(assign("x", bin(BinOp::Add, num(1), bin(BinOp::Mul, num(2), num(3)))))
    );
    assert_eq!(
        parse("x = 1 * 2 + 3"),
        Ok(assign("x", bin(BinOp::Add, bin(BinOp::Mul, num(1), num(2)), num(3))))
    );
}

#[test]
fn operators_group_to_the_left() {
    assert_eq!(
        parse("x = 1 - 2 - 3"),
        Ok(assign("x", bin(BinOp::Sub, bin(BinOp::Sub, num(1), num(2)), num(3))))
    );
    assert_eq!(
        parse("x = 8 / 4 * 2"),
        Ok(assign("x", bin(BinOp::Mul, bin(BinOp::Div, num(8), num(4)), num(2))))
    );
}

#[test]
fn brackets_override_precedence() {
    let expected = assign("x", bin(BinOp::Mul, num(2), bin(BinOp::Add, num(3), num(4))));
    assert_eq!(parse("x = 2 * (3 + 4)"), Ok(expected.clone()));
    assert_eq!(parse("x = 2 * {3 + 4}"), Ok(expected));
}

#[test]
fn parses_each_comparison() {
    assert_eq!(parse("x = a < 1"), Ok(assign("x", rel(ComparisonOp::Lt, var("a"), num(1)))));
    assert_eq!(parse("x = a > 1"), Ok(assign("x", rel(ComparisonOp::Gt, var("a"), num(1)))));
    assert_eq!(parse("x = a = 1"), Ok(assign("x", rel(ComparisonOp::Eq, var("a"), num(1)))));
    assert_eq!(
        parse("x = a + 1 < b * 2"),
        Ok(assign(
            "x",
            rel(
                ComparisonOp::Lt,
                bin(BinOp::Add, var("a"), num(1)),
                bin(BinOp::Mul, var("b"), num(2))
            )
        ))
    );
}

#[test]
fn reads_at_most_one_comparison() {
    assert_eq!(parse("x = 1 < 2 < 3"), Ok(assign("x", rel(ComparisonOp::Lt, num(1), num(2)))));
    assert_eq!(
        parse("x = (1 < 2) < 3"),
        Ok(assign("x", rel(ComparisonOp::Lt, rel(ComparisonOp::Lt, num(1), num(2)), num(3))))
    );
}

#[test]
fn parses_literals() {
    assert_eq!(parse("x = \"hi\""), Ok(assign("x", Expr::Str("hi".to_string()))));
    assert_eq!(parse("x = -7"), Ok(assign("x", num(-7))));
    assert_eq!(parse("x = 1 - -7"), Ok(assign("x", bin(BinOp::Sub, num(1), num(-7)))));
    assert_eq!(parse("x = -2147483647"), Ok(assign("x", num(-2147483647))));
}

#[test]
fn negation_takes_a_number_only() {
    assert_eq!(
        parse("x = -y"),
        Err(ParseError::ExpectedNumber { found: Some(Token::IDENT("y".to_string())), position: 3 })
    );
    assert_eq!(
        parse("x = -(1)"),
        Err(ParseError::ExpectedNumber { found: Some(Token::LPAR), position: 3 })
    );
    assert_eq!(parse("x = -"), Err(ParseError::ExpectedNumber { found: None, position: 3 }));
}

#[test]
fn rejects_the_negative_of_the_smallest_number() {
    let tokens = vec![
        Token::IDENT("x".to_string()),
        Token::EQ,
        Token::MINUS,
        Token::NUMBER(i32::MIN),
    ];
    assert_eq!(parser(tokens), Err(ParseError::LiteralOutOfRange { position: 3 }));
}

#[test]
fn parses_calls() {
    assert_eq!(
        parse("x = f()"),
        Ok(assign("x", Expr::FunctionCall { id: "f".to_string(), args: vec![] }))
    );
    assert_eq!(
        parse("x = f(1, y + 2, g(3))"),
        Ok(assign(
            "x",
            Expr::FunctionCall {
                id: "f".to_string(),
                args: vec![
                    num(1),
                    bin(BinOp::Add, var("y"), num(2)),
                    Expr::FunctionCall { id: "g".to_string(), args: vec![num(3)] },
                ],
            }
        ))
    );
    assert_eq!(
        parse("f(1)"),
        Ok(Statement::FunctionCall {
            expr: Expr::FunctionCall { id: "f".to_string(), args: vec![num(1)] }
        })
    );
}

#[test]
fn parses_if_return_and_definitions() {
    assert_eq!(
        parse("if x { y = 1 } else { }"),
        Ok(Statement::If {
            condition: Box::new(var("x")),
            then: Box::new(assign("y", num(1))),
            els: Box::new(Statement::Null),
        })
    );
    assert_eq!(parse("return 1"), Ok(Statement::Return { expr: Box::new(num(1)) }));
    assert_eq!(
        parse("fn f() { return 1 }"),
        Ok(Statement::FunctionDefine {
            id: "f".to_string(),
            arg: vec![],
            st: Box::new(Statement::Return { expr: Box::new(num(1)) }),
        })
    );
    assert_eq!(
        parse("fn f(a, b) { return a + b }"),
        Ok(Statement::FunctionDefine {
            id: "f".to_string(),
            arg: vec!["a".to_string(), "b".to_string()],
            st: Box::new(Statement::Return {
                expr: Box::new(bin(BinOp::Add, var("a"), var("b")))
            }),
        })
    );
}

#[test]
fn sequences_lean_to_the_right() {
    assert_eq!(
        parse("a = 1; b = 2; c = 3"),
        Ok(seq(assign("a", num(1)), seq(assign("b", num(2)), assign("c", num(3)))))
    );
}

#[test]
fn a_trailing_semicolon_ends_in_the_empty_statement() {
    assert_eq!(parse("a = 1;"), Ok(seq(assign("a", num(1)), Statement::Null)));
    assert_eq!(parse(";"), Ok(seq(Statement::Null, Statement::Null)));
    assert_eq!(parse(""), Ok(Statement::Null));
}

#[test]
fn a_bare_identifier_is_the_empty_statement() {
    assert_eq!(parse("x"), Ok(Statement::Null));
    assert_eq!(parse("a = 1; x"), Ok(seq(assign("a", num(1)), Statement::Null)));
}

#[test]
fn tokens_behind_the_program_are_not_read() {
    assert_eq!(parse("x = 1 )"), Ok(assign("x", num(1))));
    assert_eq!(parse("x = 1 y = 2"), Ok(assign("x", num(1))));
}

#[test]
fn reports_the_expected_token() {
    assert_eq!(
        parse("x = (1 + 2"),
        Err(ParseError::UnexpectedToken { expected: Token::RPAR, found: None, position: 6 })
    );
    assert_eq!(
        parse("x = {1 + 2)"),
        Err(ParseError::UnexpectedToken {
            expected: Token::RBRACE,
            found: Some(Token::RPAR),
            position: 6
        })
    );
    assert_eq!(
        parse("if 1 { x = 1 }"),
        Err(ParseError::UnexpectedToken { expected: Token::ELSE, found: None, position: 7 })
    );
    assert_eq!(
        parse("if 1 x = 1"),
        Err(ParseError::UnexpectedToken {
            expected: Token::LBRACE,
            found: Some(Token::IDENT("x".to_string())),
            position: 2
        })
    );
    assert_eq!(
        parse("x = f(1"),
        Err(ParseError::UnexpectedToken { expected: Token::RPAR, found: None, position: 5 })
    );
    assert_eq!(
        parse("fn f(a { }"),
        Err(ParseError::UnexpectedToken {
            expected: Token::RPAR,
            found: Some(Token::LBRACE),
            position: 4
        })
    );
}

#[test]
fn reports_a_missing_expression_or_identifier() {
    assert_eq!(parse("x = "), Err(ParseError::ExpectedExpression { found: None, position: 2 }));
    assert_eq!(
        parse("x = 1 + * 2"),
        Err(ParseError::ExpectedExpression { found: Some(Token::STAR), position: 4 })
    );
    assert_eq!(
        parse("x = f(1,)"),
        Err(ParseError::ExpectedExpression { found: Some(Token::RPAR), position: 6 })
    );
    assert_eq!(
        parse("fn (a) { }"),
        Err(ParseError::ExpectedIdentifier { found: Some(Token::LPAR), position: 1 })
    );
    assert_eq!(
        parse("fn f(a, ) { }"),
        Err(ParseError::ExpectedIdentifier { found: Some(Token::RPAR), position: 5 })
    );
}

#[test]
fn parser_steps_through_tokens() {
    let mut p = Parser::new(vec![Token::LPAR, Token::NUMBER(1), Token::RPAR]);
    assert_eq!(p.current(), Some(Token::LPAR));
    assert_eq!(p.next(), Some(Token::NUMBER(1)));
    assert_eq!(p.confirm(Token::LPAR), Ok(()));
    assert_eq!(
        p.confirm(Token::LPAR),
        Err(ParseError::UnexpectedToken {
            expected: Token::LPAR,
            found: Some(Token::NUMBER(1)),
            position: 1
        })
    );
    p.fix();
    assert_eq!(p.current(), Some(Token::RPAR));
    assert_eq!(p.next(), None);
    p.fix();
    assert_eq!(p.current(), None);
    let mut q = Parser::new(vec![Token::NUMBER(2), Token::STAR, Token::NUMBER(3)]);
    assert_eq!(q.parse_expr(), Ok(bin(BinOp::Mul, num(2), num(3))));
}
