use rush::run::ast;
use rush::run::bic::{failure, target};
use rush::run::error::ShellError;
use rush::run::executor::background::JobIds;
use rush::run::executor::command::{finish, plan, CommandPlan, RunOutcome};
use rush::run::executor::logical::{and, or};
use rush::run::executor::pipeline;
use rush::run::executor::redirection::{captured, operands, Captured, RedirectionType};
use rush::run::executor::separator;
use rush::run::executor::{execute, Step, Then};
use rush::run::node::{Ast, Token};
use rush::run::parser;
use rush::run::tokenizer::tokenize;

fn arg(s: &str) -> Token {
    Token::Arg(s.to_string())
}

fn words(e: &Ast) -> Vec<String> {
    match e {
        Ast::Command(a) => a.clone(),
        _ => panic!("expected a command"),
    }
}

fn strings(v: &[&str]) -> Vec<String> {
    v.iter().map(|s| s.to_string()).collect()
}

#[test]
fn tokenize_splits_at_white_space() {
    let tokens = tokenize("  ls   -l | wc && echo\tdone\n");
    assert_eq!(tokens.len(), 7);
    assert!(matches!(&tokens[0], Token::Arg(a) if a == "ls"));
    assert!(matches!(&tokens[1], Token::Arg(a) if a == "-l"));
    assert!(matches!(tokens[2], Token::Pipe));
    assert!(matches!(&tokens[3], Token::Arg(a) if a == "wc"));
    assert!(matches!(tokens[4], Token::AndLogical));
    assert!(matches!(&tokens[5], Token::Arg(a) if a == "echo"));
    assert!(matches!(&tokens[6], Token::Arg(a) if a == "done"));
    assert!(tokenize(" \u{3000} ").is_empty());
}

#[test]
fn tokenize_keeps_other_operators_as_words() {
    let tokens = tokenize("a || b");
    assert!(matches!(&tokens[1], Token::Arg(a) if a == "||"));
}

#[test]
fn parser_groups_the_levels() {
    // a > f | b && c ; d   groups as  (((a > f) | b) && c) ; d
    let tokens = vec![
        arg("a"),
        Token::OverwriteRedirection,
        arg("f"),
        Token::Pipe,
        arg("b"),
        Token::AndLogical,
        arg("c"),
        Token::Separator,
        arg("d"),
    ];
    match parser::parse(&tokens).unwrap() {
        Ast::Separator(l, r) => {
            assert_eq!(words(&r), strings(&["d"]));
            match *l {
                Ast::AndLogical(p, c) => {
                    assert_eq!(words(&c), strings(&["c"]));
                    match *p {
                        Ast::Pipe(red, b) => {
                            assert_eq!(words(&b), strings(&["b"]));
                            assert!(matches!(*red, Ast::OverwriteRedirection(_, _)));
                        }
                        _ => panic!("expected |"),
                    }
                }
                _ => panic!("expected &&"),
            }
        }
        _ => panic!("expected ;"),
    }
}

#[test]
fn parser_stops_at_or_after_and() {
    let tokens = vec![arg("a"), Token::AndLogical, arg("b"), Token::OrLogical, arg("c")];
    match parser::parse(&tokens).unwrap() {
        Ast::AndLogical(a, b) => {
            assert_eq!(words(&a), strings(&["a"]));
            assert_eq!(words(&b), strings(&["b"]));
        }
        _ => panic!("expected &&"),
    }
    let tokens = vec![arg("a"), Token::OrLogical, arg("b"), Token::AndLogical, arg("c")];
    assert!(matches!(parser::parse(&tokens).unwrap(), Ast::AndLogical(_, _)));
}

#[test]
fn sub_parsers_read_as_far_as_their_level_goes() {
    // a > f | b && c || d
    let tokens = vec![
        arg("a"),
        Token::OutputRedirection,
        arg("f"),
        Token::Pipe,
        arg("b"),
        Token::AndLogical,
        arg("c"),
        Token::OrLogical,
        arg("d"),
    ];
    let (e, q) = parser::command::parse(&tokens, 0);
    assert_eq!((words(&e), q), (strings(&["a"]), 1));
    let (e, q) = parser::redirection::parse(&tokens, 0);
    assert!(matches!(e, Ast::OutputRedirection(_, _)));
    assert_eq!(q, 3);
    let (e, q) = parser::pipe::parse(&tokens, 0);
    assert!(matches!(e, Ast::Pipe(_, _)));
    assert_eq!(q, 5);
    let (e, q) = parser::logical::parse(&tokens, 0);
    assert!(matches!(e, Ast::AndLogical(_, _)));
    assert_eq!(q, 7);
    let (e, q) = parser::separator::parse(&tokens, 4);
    assert!(matches!(e, Ast::AndLogical(_, _)));
    assert_eq!(q, 7);
}

#[test]
fn parser_allows_empty_commands() {
    let tokens = vec![Token::Pipe];
    match parser::parse(&tokens).unwrap() {
        Ast::Pipe(l, r) => {
            assert!(words(&l).is_empty());
            assert!(words(&r).is_empty());
        }
        _ => panic!("expected |"),
    }
}

#[test]
fn parser_background_chains() {
    let tokens = vec![arg("a"), Token::Background, arg("b")];
    assert!(matches!(parser::parse(&tokens).unwrap(), Ast::Background(_, _)));
}

#[test]
fn strict_parser_refuses_empty_commands() {
    let tokens = vec![arg("a"), Token::Pipe];
    assert!(matches!(ast::parse(&tokens), Err(ShellError::ExpectedCommand)));
    let tokens: Vec<Token> = vec![];
    assert!(matches!(ast::parse(&tokens), Err(ShellError::ExpectedCommand)));
}

#[test]
fn strict_parser_closes_with_one_ampersand() {
    let tokens = vec![arg("sleep"), arg("1"), Token::Background, arg("ignored")];
    match ast::parse(&tokens).unwrap() {
        Ast::Background(l, r) => {
            assert_eq!(words(&l), strings(&["sleep", "1"]));
            assert!(words(&r).is_empty());
        }
        _ => panic!("expected a background job"),
    }
    let tokens = vec![arg("a"), Token::OrLogical, arg("b")];
    assert!(matches!(ast::parse(&tokens).unwrap(), Ast::OrLogical(_, _)));
    match ast::background::parse(&tokens, 2) {
        Ok((e, q)) => {
            assert_eq!(words(&e), strings(&["b"]));
            assert_eq!(q, 3);
        }
        Err(_) => panic!("expected a command"),
    }
}

#[test]
fn executor_dispatch() {
    let c = Ast::Command(strings(&["ls"]));
    assert!(matches!(execute(&c), Step::Command(a) if a == &strings(&["ls"])));
    let and = Ast::AndLogical(Box::new(Ast::Command(strings(&["a"]))), Box::new(Ast::Command(strings(&["b"]))));
    assert!(matches!(execute(&and), Step::Both(_, _)));
    let or = Ast::OrLogical(Box::new(Ast::Command(strings(&["a"]))), Box::new(Ast::Command(strings(&["b"]))));
    assert!(matches!(execute(&or), Step::Either(_, _)));
    let out = Ast::OutputRedirection(Box::new(Ast::Command(strings(&["a"]))), Box::new(Ast::Command(strings(&["f"]))));
    assert!(matches!(execute(&out), Step::Redirect(RedirectionType::Output, _, _)));
    let err = Ast::ErrorRedirection(Box::new(Ast::Command(strings(&["a"]))), Box::new(Ast::Command(strings(&["f"]))));
    assert!(matches!(execute(&err), Step::Redirect(RedirectionType::Error, _, _)));
    let sep = Ast::Separator(Box::new(Ast::Command(strings(&["a"]))), Box::new(Ast::Command(strings(&["b"]))));
    assert!(matches!(execute(&sep), Step::Separator(_, _)));
}

fn msg(e: ShellError) -> String {
    match e {
        ShellError::InvalidArgument(m) => m,
        _ => panic!("expected an invalid argument"),
    }
}

#[test]
fn operands_of_joined_commands() {
    let a = Ast::Command(strings(&["a"]));
    let b = Ast::Command(strings(&["b"]));
    let nested = Ast::Pipe(Box::new(Ast::Command(strings(&["x"]))), Box::new(Ast::Command(strings(&["y"]))));
    let (l, r) = or::operands(&a, &b).unwrap();
    assert_eq!(l, &strings(&["a"]));
    assert_eq!(r, &strings(&["b"]));
    assert_eq!(msg(or::operands(&nested, &b).unwrap_err()), "Or logical right hand side must be a command");
    assert_eq!(msg(pipeline::operands(&nested, &b).unwrap_err()), "Pipeline left hand side must be a command");
    assert_eq!(msg(pipeline::operands(&a, &nested).unwrap_err()), "Pipeline right hand side must be a command");
    assert_eq!(msg(operands(&nested, &nested, RedirectionType::Overwrite).unwrap_err()), "Expected a filepath");
    assert_eq!(
        msg(operands(&nested, &b, RedirectionType::Append).unwrap_err()),
        "Expected a command for redirection"
    );
    assert_eq!(
        msg(operands(&nested, &nested, RedirectionType::Input).unwrap_err()),
        "'<' Left hand side must be a command"
    );
    assert_eq!(
        msg(operands(&a, &nested, RedirectionType::Output).unwrap_err()),
        "'&>' Does not support this type of file"
    );
    let (cmd, file) = operands(&a, &b, RedirectionType::Error).unwrap();
    assert_eq!(cmd, &strings(&["a"]));
    assert_eq!(file, &strings(&["b"]));
}

#[test]
fn command_plans() {
    assert!(matches!(plan(&vec![]), Err(ShellError::ExpectedCommand)));
    assert!(matches!(plan(&strings(&["cd"])), Ok(CommandPlan::Cd(p)) if p.is_empty()));
    assert!(matches!(plan(&strings(&["cd", "/x"])), Ok(CommandPlan::Cd(p)) if p == "/x"));
    assert!(matches!(plan(&strings(&["exit", "42"])), Ok(CommandPlan::Exit(42))));
    assert!(matches!(plan(&strings(&["exit", "+5"])), Ok(CommandPlan::Exit(5))));
    assert!(matches!(plan(&strings(&["exit", "99999999999"])), Ok(CommandPlan::Exit(0))));
    assert!(matches!(plan(&strings(&["ls", "-l"])), Ok(CommandPlan::Run)));
}

#[test]
fn command_outcomes() {
    let p = "ls".to_string();
    assert!(finish(&p, RunOutcome::Exited { success: true, code: Some(0) }).is_ok());
    match finish(&p, RunOutcome::Exited { success: false, code: Some(2) }) {
        Err(ShellError::CommandFailure(c, Some(2))) => assert_eq!(c, "ls"),
        _ => panic!("expected a failure"),
    }
    match finish(&p, RunOutcome::NotFound) {
        Err(e) => assert_eq!(e.to_string(), "Command not found: ls"),
        _ => panic!("expected not found"),
    }
    match finish(&p, RunOutcome::Failed("denied".to_string())) {
        Err(e) => assert_eq!(e.to_string(), "IO error: denied"),
        _ => panic!("expected an io error"),
    }
    assert_eq!(ShellError::InvalidArgument("x".to_string()).to_string(), "Invalid argument: x");
    assert_eq!(ShellError::BicError("b".to_string()).to_string(), "b");
}

#[test]
fn cd_targets_and_failures() {
    assert!(target("").is_none());
    assert!(target("~").is_none());
    assert_eq!(target("/tmp").unwrap(), "/tmp");
    assert_eq!(failure("/x", "No such file or directory"), "cd /x: No such file or directory");
}

#[test]
fn job_ids_reuse_released_numbers_oldest_first() {
    let mut ids = JobIds::new();
    assert!(ids.can_acquire());
    assert_eq!(ids.acquire(), 1);
    assert_eq!(ids.acquire(), 2);
    assert_eq!(ids.acquire(), 3);
    assert!(ids.can_release(2));
    ids.release(2);
    assert!(!ids.can_release(2));
    assert!(!ids.can_release(4));
    ids.release(1);
    assert_eq!(ids.acquire(), 2);
    assert_eq!(ids.acquire(), 1);
    assert_eq!(ids.acquire(), 4);
}

#[test]
fn steps_after_the_left_side() {
    assert!(matches!(and::after(Ok(())), Then::Right));
    assert!(matches!(
        and::after(Err(ShellError::ExpectedCommand)),
        Then::Stop(Err(ShellError::ExpectedCommand))
    ));
    assert!(matches!(separator::after(Ok(())), Then::Right));
    assert!(matches!(
        separator::after(Err(ShellError::ExpectedCommand)),
        Then::ReportThenRight(ShellError::ExpectedCommand)
    ));
    assert!(matches!(or::after(Ok(true)), Then::Stop(Ok(()))));
    assert!(matches!(or::after(Ok(false)), Then::Right));
    assert!(matches!(or::after(Err("gone".to_string())), Then::Stop(Err(ShellError::IoError(m))) if m == "gone"));
    assert!(or::finish(Ok(false)).is_ok());
    assert!(matches!(or::finish(Err("x".to_string())), Err(ShellError::IoError(m)) if m == "x"));
}

#[test]
fn captured_output_of_redirections() {
    assert!(matches!(
        captured(RedirectionType::Overwrite, true, String::new(), Some(0)),
        Captured::Write { append: false }
    ));
    assert!(matches!(
        captured(RedirectionType::Append, true, String::new(), Some(0)),
        Captured::Write { append: true }
    ));
    assert!(matches!(
        captured(RedirectionType::Append, false, "bad".to_string(), Some(2)),
        Captured::Failed(ShellError::CommandFailure(m, Some(2))) if m == "bad"
    ));
}
