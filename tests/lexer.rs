use dream::{next_token, tokenize, LexError, Token};

fn chars(s: &str) -> Vec<char> {
    s.chars().collect()
}

#[test]
fn tokenizes_expressions() {
    let src = chars("(let x 42)\n($ (+ x 7))");
    let toks = tokenize(&src).unwrap();
    assert_eq!(
        toks,
        vec![
            Token::OpenParen,
            Token::Let,
            Token::Ident(5, 6),
            Token::Int(42),
            Token::CloseParen,
            Token::OpenParen,
            Token::Dollar,
            Token::OpenParen,
            Token::Plus,
            Token::Ident(17, 18),
            Token::Int(7),
            Token::CloseParen,
            Token::CloseParen,
        ]
    );
}

#[test]
fn symbols_and_words() {
    let src = chars(" - * / = lets le\u{3000}foo-bar)");
    let toks = tokenize(&src).unwrap();
    assert_eq!(
        toks,
        vec![
            Token::Dash,
            Token::Star,
            Token::Slash,
            Token::Eq,
            Token::Ident(9, 13),
            Token::Ident(14, 16),
            Token::Ident(17, 24),
            Token::CloseParen,
        ]
    );
    assert_eq!(next_token(&src, 0), Ok(Some((Token::Dash, 2))));
    assert_eq!(next_token(&chars("   "), 1), Ok(None));
    assert_eq!(tokenize(&chars("")), Ok(vec![]));
}

#[test]
fn integer_limits() {
    assert_eq!(tokenize(&chars("9223372036854775807")), Ok(vec![Token::Int(i64::MAX)]));
    assert_eq!(tokenize(&chars("9223372036854775808")), Err(LexError::IntTooLarge));
    assert_eq!(tokenize(&chars("12ab")), Ok(vec![Token::Int(12), Token::Ident(2, 4)]));
}
