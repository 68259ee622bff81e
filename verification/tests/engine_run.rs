use rush::engine::error::{ShellError, ShellErrorKind};
use rush::engine::lexer::lex;
use rush::engine::parser::{parse, Expr, Operator};
use rush::engine::types::Token as PipeToken;
use rush::engine::{plan, resume, Config, Next, Outcome, Plan};
use rush::interpreter::stream::{FileOption, Stream, StreamFile};

fn expr_of(line: &str) -> Expr {
    parse(&lex(line.to_string()).unwrap()).unwrap()
}

#[test]
fn plan_spawns_a_command_with_its_words() {
    match plan(expr_of("ls -la"), None) {
        Plan::Spawn(args, None) => assert_eq!(args, vec!["ls".to_string(), "-la".to_string()]),
        _ => panic!("expected a spawn"),
    }
}

#[test]
fn plan_refuses_an_empty_command() {
    match plan(Expr::Atomic(vec![]), None) {
        Plan::Fail(e) => assert_eq!(e.kind(), ShellErrorKind::Unnecassary),
        _ => panic!("expected a failure"),
    }
}

#[test]
fn plan_redirects_into_the_named_file() {
    match plan(expr_of("ls > out.txt"), None) {
        Plan::Redirected(Expr::Atomic(a), c) => {
            assert_eq!(a, vec!["ls".to_string()]);
            match c.stdout {
                Stream::File(p, FileOption::Overwrite) => assert_eq!(p, "out.txt"),
                _ => panic!("expected a file"),
            }
            assert!(matches!(c.stderr, Stream::Inherit));
            assert!(matches!(c.stdin, Stream::Inherit));
        }
        _ => panic!("expected a redirect"),
    }
}

#[test]
fn plan_appends_where_asked() {
    let e = Expr::Binary(
        Box::new(Expr::Atomic(vec!["ls".to_string()])),
        Operator::RedirectAppend,
        Box::new(Expr::Atomic(vec!["log".to_string(), "extra".to_string()])),
    );
    match plan(e, None) {
        Plan::Redirected(_, c) => match c.stdout {
            Stream::File(p, FileOption::Append) => assert_eq!(p, "log"),
            _ => panic!("expected a file"),
        },
        _ => panic!("expected a redirect"),
    }
}

#[test]
fn plan_refuses_a_redirect_without_a_file() {
    match plan(expr_of("ls >"), None) {
        Plan::Fail(ShellError::Unnecassary) => {}
        _ => panic!("expected a failure"),
    }
    match plan(expr_of("ls > a ; b"), None) {
        Plan::Sequence { op: Operator::Separator, .. } => {}
        _ => panic!("expected a sequence"),
    }
}

#[test]
fn plan_pipes_the_left_side() {
    let e = Expr::Binary(
        Box::new(Expr::Atomic(vec!["ls".to_string()])),
        Operator::Pipe,
        Box::new(Expr::Atomic(vec!["wc".to_string()])),
    );
    match plan(e, None) {
        Plan::Sequence { left_config: Some(c), op: Operator::Pipe, .. } => {
            assert!(matches!(c.stdout, Stream::Piped));
        }
        _ => panic!("expected a piped sequence"),
    }
}

fn right() -> Expr {
    Expr::Atomic(vec!["echo".to_string()])
}

#[test]
fn resume_and_goes_on_only_after_success() {
    let ok = Outcome::Exited { success: true, stdout: None };
    assert!(matches!(resume(Operator::LogicalAnd, right(), None, ok), Next::Continue(None, _, None)));
    let bad = Outcome::Exited { success: false, stdout: None };
    assert!(matches!(resume(Operator::LogicalAnd, right(), None, bad), Next::Fail(ShellError::Unnecassary)));
    let failed = Outcome::WaitFailed("gone".to_string());
    match resume(Operator::LogicalAnd, right(), None, failed) {
        Next::Fail(ShellError::IoError(m)) => assert_eq!(m, "gone"),
        _ => panic!("expected an error"),
    }
}

#[test]
fn resume_or_goes_on_only_when_the_left_side_did_not_run() {
    let ran = Outcome::Exited { success: false, stdout: None };
    assert!(matches!(resume(Operator::LogicalOr, right(), None, ran), Next::Fail(ShellError::Unnecassary)));
    let not_started = Outcome::NotStarted(ShellError::from("no such program"));
    assert!(matches!(resume(Operator::LogicalOr, right(), None, not_started), Next::Continue(None, _, None)));
}

#[test]
fn resume_separator_reports_and_goes_on() {
    let not_started = Outcome::NotStarted(ShellError::from("no such program"));
    match resume(Operator::Separator, right(), None, not_started) {
        Next::Continue(Some(e), Expr::Atomic(a), None) => {
            assert_eq!(e.to_string(), "no such program");
            assert_eq!(a, vec!["echo".to_string()]);
        }
        _ => panic!("expected to go on"),
    }
}

#[test]
fn resume_pipe_feeds_the_captured_output() {
    let out = Outcome::Exited { success: true, stdout: Some("a\nb\n".to_string()) };
    let outer = Config::new("f".to_string().stream(FileOption::Append), Stream::Null, Stream::Inherit);
    match resume(Operator::Pipe, right(), Some(outer), out) {
        Next::Continue(None, _, Some(c)) => {
            assert!(matches!(c.stdout, Stream::File(ref p, FileOption::Append) if p == "f"));
            assert!(matches!(c.stderr, Stream::Null));
            assert!(matches!(c.stdin, Stream::ChildStdout(ref s) if s == "a\nb\n"));
        }
        _ => panic!("expected to go on"),
    }
    let none = Outcome::Exited { success: true, stdout: None };
    assert!(matches!(resume(Operator::Pipe, right(), None, none), Next::Continue(None, _, None)));
}

#[test]
fn error_kinds_and_messages() {
    assert_eq!(ShellError::Unnecassary.kind(), ShellErrorKind::Unnecassary);
    assert_eq!(ShellError::Unnecassary.to_string(), "Unnecassary Error");
    assert_eq!(ShellError::Parser("p".to_string()).kind(), ShellErrorKind::Parser);
    assert_eq!(ShellError::Lexer("l".to_string()).kind(), ShellErrorKind::Lexer);
    let e = ShellError::from("disk full");
    assert_eq!(e.kind(), ShellErrorKind::IoError);
    assert_eq!(e.to_string(), "disk full");
}

#[test]
fn pipeline_tokens_precedence_and_text() {
    assert_eq!(PipeToken::Arg("x".to_string()).precedence(), 0);
    assert_eq!(PipeToken::And.precedence(), 1);
    assert_eq!(PipeToken::Or.precedence(), 1);
    assert_eq!(PipeToken::Pipe.precedence(), 2);
    assert_eq!(PipeToken::Pipe.to_string(), "|");
    assert_eq!(PipeToken::Or.to_string(), "||");
    assert_eq!(PipeToken::And.to_string(), "&&");
    assert_eq!(PipeToken::Arg("ls".to_string()).to_string(), "ls");
}

#[test]
fn stream_copy_is_equal() {
    match Stream::File("a".to_string(), FileOption::Overwrite).copy() {
        Stream::File(p, FileOption::Overwrite) => assert_eq!(p, "a"),
        _ => panic!("expected the same stream"),
    }
    assert!(matches!(Stream::ChildStdout("x".to_string()).copy(), Stream::ChildStdout(ref s) if s == "x"));
}
