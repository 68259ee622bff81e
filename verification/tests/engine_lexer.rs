use rush::engine::error::ShellError;
use rush::engine::lexer::{lex, Token};

#[test]
fn lexer_test_atomic() {
    let tokens = lex("echo Hello World".to_string()).unwrap();
    let mut expected_tokens = Vec::new();
    expected_tokens.push(Token::Atomic("echo".to_string()));
    expected_tokens.push(Token::Atomic("Hello".to_string()));
    expected_tokens.push(Token::Atomic("World".to_string()));

    assert_eq!(tokens.len(), expected_tokens.len());

    for i in 0..tokens.len() {
        assert_eq!(tokens[i], expected_tokens[i]);
    }
}

#[test]
fn lexer_test_empty() {
    let tokens = lex("".to_string()).unwrap();
    assert!(tokens.is_empty());
}

#[test]
fn lexer_test_operator() {
    let tokens = lex("ls && echo Hi".to_string()).unwrap();
    let mut expected_tokens = Vec::new();
    expected_tokens.push(Token::Atomic("ls".to_string()));
    expected_tokens.push(Token::LogicalAnd);
    expected_tokens.push(Token::Atomic("echo".to_string()));
    expected_tokens.push(Token::Atomic("Hi".to_string()));

    assert_eq!(tokens.len(), expected_tokens.len());

    for i in 0..tokens.len() {
        assert_eq!(tokens[i], expected_tokens[i]);
    }
}

#[test]
fn lexer_all_operators() {
    let tokens = lex("a||b;c>d".to_string()).unwrap();
    assert_eq!(
        tokens,
        vec![
            Token::Atomic("a".to_string()),
            Token::LogicalOr,
            Token::Atomic("b".to_string()),
            Token::Separator,
            Token::Atomic("c".to_string()),
            Token::RedirectOverwrite,
            Token::Atomic("d".to_string()),
        ]
    );
}

#[test]
fn lexer_lone_ampersand_and_bar_are_dropped() {
    let tokens = lex("a & b | c".to_string()).unwrap();
    assert_eq!(
        tokens,
        vec![
            Token::Atomic("a".to_string()),
            Token::Atomic("b".to_string()),
            Token::Atomic("c".to_string()),
        ]
    );
}

#[test]
fn lexer_word_characters() {
    let tokens = lex("\t.hidden-file_x\n".to_string()).unwrap();
    assert_eq!(tokens, vec![Token::Atomic(".hidden-file_x".to_string())]);
    assert!(lex("über".to_string()).is_err());
}

#[test]
fn lexer_unknown_symbol() {
    match lex("echo 42".to_string()) {
        Err(e) => {
            assert!(matches!(e, ShellError::Lexer(_)));
            assert_eq!(e.to_string(), "Unknown symbol");
        }
        Ok(_) => panic!("digits begin no token"),
    }
}

#[test]
fn lexer_word_continues_with_unicode_letters() {
    let tokens = lex("aé".to_string()).unwrap();
    assert_eq!(tokens, vec![Token::Atomic("aé".to_string())]);
}

#[test]
fn lexing_lines_joined_by_a_space() {
    let a = "ls -l &&x|";
    let b = "|y; echo z";
    let mut joined = lex(a.to_string()).unwrap();
    joined.extend(lex(b.to_string()).unwrap());
    assert_eq!(lex(format!("{} {}", a, b)).unwrap(), joined);
    assert!(lex(" \t\n  ".to_string()).unwrap().is_empty());
}
