use rush::engine::error::ShellError;
use rush::engine::lexer::{lex, Token};
use rush::engine::parser::{parse, Expr, Operator};

#[test]
fn parser_test_atomic() {
    let mut tokens = Vec::new();
    tokens.push(Token::Atomic("echo".to_string()));
    tokens.push(Token::Atomic("Hello".to_string()));
    tokens.push(Token::Atomic("World".to_string()));

    let expr = parse(&tokens);

    let mut expected_atomic = Vec::new();
    expected_atomic.push("echo".to_string());
    expected_atomic.push("Hello".to_string());
    expected_atomic.push("World".to_string());

    if let Ok(Expr::Atomic(a)) = expr {
        assert_eq!(a.len(), expected_atomic.len());

        for i in 0..a.len() {
            assert_eq!(a[i], expected_atomic[i]);
        }
    } else {
        panic!("Expected an atomic, didn't get an atomic.")
    }
}

#[test]
fn parser_test_operator() {
    let mut tokens = Vec::new();
    tokens.push(Token::Atomic("echo".to_string()));
    tokens.push(Token::Atomic("Hello".to_string()));
    tokens.push(Token::Atomic("World".to_string()));
    tokens.push(Token::LogicalAnd);
    tokens.push(Token::Atomic("echo".to_string()));
    tokens.push(Token::Atomic("Hi".to_string()));

    let expr = parse(&tokens);

    let mut left_expected_atomic = Vec::new();
    left_expected_atomic.push("echo".to_string());
    left_expected_atomic.push("Hello".to_string());
    left_expected_atomic.push("World".to_string());

    let mut right_expected_atomic = Vec::new();
    right_expected_atomic.push("echo".to_string());
    right_expected_atomic.push("Hi".to_string());

    if let Ok(Expr::Binary(ll, op, rr)) = expr {
        assert_eq!(op, Operator::LogicalAnd);

        if let Expr::Atomic(left) = *ll {
            assert_eq!(left.len(), left_expected_atomic.len());

            for i in 0..left.len() {
                assert_eq!(left[i], left_expected_atomic[i]);
            }
        } else {
            panic!("Expected the left leaf of binary to be atomic");
        }

        if let Expr::Atomic(right) = *rr {
            assert_eq!(right.len(), right_expected_atomic.len());

            for i in 0..right.len() {
                assert_eq!(right[i], right_expected_atomic[i]);
            }
        } else {
            panic!("Expected the right leaf of binary to be atomic");
        }
    } else {
        panic!("Expected a binary, didn't get a binary.")
    }
}

#[test]
fn parser_test_empty() {
    let tokens = Vec::new();

    let expr = parse(&tokens);

    if let Ok(Expr::Atomic(a)) = expr {
        assert!(a.is_empty());
    } else {
        panic!("Expected an atomic, didn't get an atomic.")
    }
}

#[test]
fn test_unexpected_op() {
    let mut tokens = Vec::new();
    tokens.push(Token::LogicalAnd);

    let expr = parse(&tokens);

    match expr {
        Ok(_) => panic!("Unexpected result"),
        Err(_) => {
            return;
        }
    }
}

fn words(e: &Expr) -> Vec<String> {
    match e {
        Expr::Atomic(a) => a.clone(),
        Expr::Binary(..) => panic!("expected a command"),
    }
}

#[test]
fn parser_precedence_binds_redirect_tighter_than_and() {
    // a && b > f ; c  groups as  (a && (b > f)) ; c
    let tokens = lex("a && b > f ; c".to_string()).unwrap();
    match parse(&tokens).unwrap() {
        Expr::Binary(l, Operator::Separator, r) => {
            assert_eq!(words(&r), vec!["c".to_string()]);
            match *l {
                Expr::Binary(a, Operator::LogicalAnd, rest) => {
                    assert_eq!(words(&a), vec!["a".to_string()]);
                    match *rest {
                        Expr::Binary(b, Operator::RedirectOverwrite, f) => {
                            assert_eq!(words(&b), vec!["b".to_string()]);
                            assert_eq!(words(&f), vec!["f".to_string()]);
                        }
                        _ => panic!("expected a redirect"),
                    }
                }
                _ => panic!("expected &&"),
            }
        }
        _ => panic!("expected ;"),
    }
}

#[test]
fn parser_equal_precedence_groups_left() {
    // a && b || c  groups as  (a && b) || c
    let tokens = lex("a && b || c".to_string()).unwrap();
    match parse(&tokens).unwrap() {
        Expr::Binary(l, Operator::LogicalOr, r) => {
            assert_eq!(words(&r), vec!["c".to_string()]);
            assert!(matches!(*l, Expr::Binary(_, Operator::LogicalAnd, _)));
        }
        _ => panic!("expected ||"),
    }
}

#[test]
fn parser_trailing_operator_gives_empty_command() {
    let tokens = lex("ls ;".to_string()).unwrap();
    match parse(&tokens).unwrap() {
        Expr::Binary(l, Operator::Separator, r) => {
            assert_eq!(words(&l), vec!["ls".to_string()]);
            assert!(words(&r).is_empty());
        }
        _ => panic!("expected ;"),
    }
}

#[test]
fn parser_two_operators_in_a_row_fail() {
    let tokens = vec![
        Token::Atomic("a".to_string()),
        Token::LogicalAnd,
        Token::Separator,
        Token::Atomic("b".to_string()),
    ];
    match parse(&tokens) {
        Err(ShellError::Parser(m)) => assert_eq!(m, "Unexpected symbol"),
        _ => panic!("expected a parser error"),
    }
}

#[test]
fn parser_pipe_binds_between_and_and_redirect() {
    let tokens = vec![
        Token::Atomic("a".to_string()),
        Token::Pipe,
        Token::Atomic("b".to_string()),
        Token::RedirectAppend,
        Token::Atomic("f".to_string()),
    ];
    match parse(&tokens).unwrap() {
        Expr::Binary(a, Operator::Pipe, rest) => {
            assert_eq!(words(&a), vec!["a".to_string()]);
            assert!(matches!(*rest, Expr::Binary(_, Operator::RedirectAppend, _)));
        }
        _ => panic!("expected |"),
    }
}
