use rush::interpreter::bic::{cd_failure, execute, is_bic, Builtin};
use rush::interpreter::error::ShellError;
use rush::interpreter::node::{Ast, LogicType, RedirectType, Token};
use rush::interpreter::parser::Parser;

fn arg(s: &str) -> Token {
    Token::Arg(s.to_string())
}

fn words(e: &Ast) -> Vec<String> {
    match e {
        Ast::Command(a) => a.clone(),
        _ => panic!("expected a command"),
    }
}

#[test]
fn parser_reads_a_command() {
    let tokens = vec![arg("echo"), arg("hi")];
    let mut p = Parser::new(&tokens);
    let e = p.parse().unwrap();
    assert_eq!(words(&e), vec!["echo".to_string(), "hi".to_string()]);
}

#[test]
fn parser_binds_by_precedence() {
    // a | b && c > f   groups as  (a | b) && (c > f)
    let tokens = vec![
        arg("a"),
        Token::Pipe,
        arg("b"),
        Token::Logic(LogicType::And),
        arg("c"),
        Token::Redirect(RedirectType::Overwrite),
        arg("f"),
    ];
    let mut p = Parser::new(&tokens);
    match p.parse().unwrap() {
        Ast::Logic(l, r, LogicType::And) => {
            assert!(matches!(*l, Ast::Pipe(_, _)));
            match *r {
                Ast::Redirect(c, f, RedirectType::Overwrite) => {
                    assert_eq!(words(&c), vec!["c".to_string()]);
                    assert_eq!(words(&f), vec!["f".to_string()]);
                }
                _ => panic!("expected a redirect"),
            }
        }
        _ => panic!("expected &&"),
    }
}

#[test]
fn parser_trailing_background_has_an_empty_right_side() {
    let tokens = vec![arg("sleep"), arg("5"), Token::Background];
    let mut p = Parser::new(&tokens);
    match p.parse().unwrap() {
        Ast::Background(l, r) => {
            assert_eq!(words(&l), vec!["sleep".to_string(), "5".to_string()]);
            assert!(words(&r).is_empty());
        }
        _ => panic!("expected a background job"),
    }
}

#[test]
fn parser_errors_name_the_place() {
    let empty: Vec<Token> = vec![];
    assert_eq!(Parser::new(&empty).parse().unwrap_err(), "Unexpected end of tokens");

    let dangling = vec![arg("a"), Token::Pipe];
    assert_eq!(Parser::new(&dangling).parse().unwrap_err(), "Unexpected end of tokens");

    let leading = vec![Token::Pipe, arg("a")];
    assert_eq!(Parser::new(&leading).parse().unwrap_err(), "Unexpected token: Pipe");

    let sep = vec![arg("a"), Token::Separator, arg("b")];
    assert_eq!(Parser::new(&sep).parse().unwrap_err(), "Unexpected infix token: Separator");

    let twice = vec![arg("a"), Token::Logic(LogicType::Or), Token::Redirect(RedirectType::Input)];
    assert_eq!(Parser::new(&twice).parse().unwrap_err(), "Unexpected token: Redirect(Input)");
}

#[test]
fn parser_precedences() {
    assert_eq!(Parser::get_precedence(&Token::Background), 10);
    assert_eq!(Parser::get_precedence(&Token::Logic(LogicType::Or)), 20);
    assert_eq!(Parser::get_precedence(&Token::Pipe), 30);
    assert_eq!(Parser::get_precedence(&Token::Redirect(RedirectType::Error)), 40);
    assert_eq!(Parser::get_precedence(&arg("x")), 50);
}

#[test]
fn builtin_names() {
    assert!(is_bic("cd"));
    assert!(is_bic("exit"));
    assert!(is_bic("pwd"));
    assert!(is_bic("time"));
    assert!(!is_bic("ls"));
    assert!(!is_bic("cdx"));
}

fn strings(v: &[&str]) -> Vec<String> {
    v.iter().map(|s| s.to_string()).collect()
}

#[test]
fn builtin_decisions() {
    assert!(matches!(execute(vec![]), Ok(Builtin::Nothing)));
    assert!(matches!(execute(strings(&["cd"])), Ok(Builtin::Cd(None))));
    assert!(matches!(execute(strings(&["cd", "~"])), Ok(Builtin::Cd(None))));
    match execute(strings(&["cd", "/tmp"])) {
        Ok(Builtin::Cd(Some(p))) => assert_eq!(p, "/tmp"),
        _ => panic!("expected cd"),
    }
    assert!(matches!(execute(strings(&["exit"])), Ok(Builtin::Exit(0))));
    assert!(matches!(execute(strings(&["exit", "3"])), Ok(Builtin::Exit(3))));
    assert!(matches!(execute(strings(&["exit", "-7"])), Ok(Builtin::Exit(-7))));
    assert!(matches!(execute(strings(&["exit", "x"])), Ok(Builtin::Exit(0))));
    assert!(matches!(execute(strings(&["pwd"])), Ok(Builtin::Pwd)));
    match execute(strings(&["time", "sleep", "1"])) {
        Ok(Builtin::Time(v)) => assert_eq!(v, strings(&["sleep", "1"])),
        _ => panic!("expected time"),
    }
    match execute(strings(&["ls"])) {
        Err(ShellError::CommandNotFound(m)) => assert_eq!(m, "Unknown Built In Command:ls"),
        _ => panic!("expected an error"),
    }
}

#[test]
fn builtin_errors() {
    match cd_failure("/nope") {
        ShellError::BicError(m) => assert_eq!(m, "cd: The directory '/nope' does not exist\n"),
        _ => panic!("expected a cd error"),
    }
    match ShellError::from("Could not get current directory") {
        ShellError::IoError(m) => assert_eq!(m, "Could not get current directory"),
        _ => panic!("expected an io error"),
    }
    assert_eq!(ShellError::BicError("x".to_string()).to_string(), "x");
}
