use dream::{Expr, LexError, Operator, ParseError, Parser};

fn parse(s: &str) -> Result<Vec<Expr>, ParseError> {
    Parser::parse(s.chars().collect())
}

#[test]
fn parses_let_and_print() {
    let exprs = parse("(let x 42) ($ x) (+ 1 (* 2 3))").unwrap();
    assert_eq!(exprs.len(), 3);
    match &exprs[0] {
        Expr::Let(name, init) => {
            assert_eq!(name.iter().collect::<String>(), "x");
            assert!(matches!(**init, Expr::Int(42)));
        }
        other => panic!("unexpected {other:?}"),
    }
    match &exprs[1] {
        Expr::Operation(Operator::Dollar, operands) => {
            assert_eq!(operands.len(), 1);
            assert!(matches!(&operands[0], Expr::Ident(n) if n.iter().collect::<String>() == "x"));
        }
        other => panic!("unexpected {other:?}"),
    }
    match &exprs[2] {
        Expr::Operation(Operator::Plus, operands) => {
            assert_eq!(operands.len(), 2);
            assert!(matches!(&operands[0], Expr::Int(1)));
            assert!(matches!(&operands[1], Expr::Operation(Operator::Star, inner) if inner.len() == 2));
        }
        other => panic!("unexpected {other:?}"),
    }
}

#[test]
fn parse_errors() {
    assert_eq!(parse("x").unwrap_err(), ParseError::ExpectedOpenParen);
    assert_eq!(parse("(").unwrap_err(), ParseError::ExpectedOperator);
    assert_eq!(parse("()").unwrap_err(), ParseError::ExpectedOperator);
    assert_eq!(parse("(+ 1 + 2)").unwrap_err(), ParseError::NeedsParens);
    assert_eq!(parse("(+ (let x 1))").unwrap_err(), ParseError::LetNotAllowed);
    assert_eq!(parse("(let 1 2)").unwrap_err(), ParseError::ExpectedIdent);
    assert_eq!(parse("(1 2)").unwrap_err(), ParseError::ExpectedCloseParen);
    assert_eq!(
        parse("(99999999999999999999)").unwrap_err(),
        ParseError::Lex(LexError::IntTooLarge)
    );
    assert!(parse("").unwrap().is_empty());
    assert!(parse("  (7)\n").is_ok());
}
