use rush::repl::Shell as ReplShell;
use rush::rush::run::custom::{execute, Custom};
use rush::rush::run::dir::{check, target, CdFailure};
use rush::rush::run::utils::tokenize;
use rush::rush::{format_prompt, prompt_dir, Rush};
use rush::shell::{user_prompt, Shell};
use rush::terminal::Terminal;
use rush::text::{parse_i32, split_whitespace};
use std::collections::VecDeque;

fn deque(v: &[&str]) -> VecDeque<String> {
    v.iter().map(|s| s.to_string()).collect()
}

#[test]
fn rush_tokenize_words() {
    let t = tokenize("  git   commit\t-m x ");
    assert_eq!(t, deque(&["git", "commit", "-m", "x"]));
    assert!(tokenize("").is_empty());
}

#[test]
fn custom_commands() {
    assert!(matches!(execute(&deque(&["cd"])), Custom::Cd(None)));
    assert!(matches!(execute(&deque(&["cd", "src"])), Custom::Cd(Some(p)) if p == "src"));
    assert!(matches!(execute(&deque(&["exit"])), Custom::Exit(0, None)));
    assert!(matches!(execute(&deque(&["exit", "-2147483648"])), Custom::Exit(-2147483648, None)));
    match execute(&deque(&["exit", "2147483648"])) {
        Custom::Exit(1, Some(m)) => assert_eq!(m, "rush: invalid exit code: 2147483648"),
        _ => panic!("expected a complaint"),
    }
    assert!(matches!(execute(&deque(&["ls"])), Custom::NotCustom));
}

#[test]
fn prompts() {
    assert_eq!(format_prompt("ann", "box", "/home/ann/src"), "[ann@box src]$");
    assert_eq!(format_prompt("ann", "box", "~"), "[ann@box ~]$");
    assert_eq!(format_prompt("ann", "box", "/"), "[ann@box /]$");
    assert_eq!(prompt_dir("/home/ann", "/home/ann"), "~");
    assert_eq!(prompt_dir("/tmp", "/home/ann"), "/tmp");
    assert_eq!(prompt_dir("/home/ann", "/home/ann/"), "~");
    assert_eq!(prompt_dir("/home//ann", "/home/ann"), "~");
    assert_eq!(prompt_dir("/home/./ann", "/home/ann"), "~");
    assert_eq!(prompt_dir("/home/anne", "/home/ann"), "/home/anne");
    assert_eq!(user_prompt("ann", "box"), "[ann@box]$");
}

#[test]
fn rush_from_parts() {
    assert_eq!(Rush::from_parts(None, "u", "h", Some("/a/b")).prompt, "[u@h b]$");
    assert_eq!(Rush::from_parts(Some("> "), "u", "h", Some("/a/b")).prompt, "> ");
    assert_eq!(Rush::from_parts(Some("> "), "u", "h", None).prompt, "[u@h unknown]$");
    let mut r = Rush::from_parts(None, "u", "h", Some("/a"));
    r.update_dir("u", "h", "/var/log");
    assert_eq!(r.prompt, "[u@h log]$");
}

#[test]
fn shells() {
    assert_eq!(Shell::new("> ").prompt, "> ");
    let s = ReplShell::new("\\w> ");
    assert_eq!(s.prompt, "\\w> ");
    assert_eq!(s.expanded_prompt("~/src"), "~/src> ");
    assert_eq!(ReplShell::new("a\\wb\\w").expanded_prompt("X"), "aXbX");
    assert_eq!(ReplShell::new("plain\\").expanded_prompt("X"), "plain\\");
    assert_eq!(ReplShell::current_dir("/home/ann", "/home/ann/src"), "~/src");
    assert_eq!(ReplShell::current_dir("/home/ann", "/home/annie"), "/home/annie");
    let t = Terminal { print: "[1]+ Done\n".to_string() };
    assert_eq!(t.print, "[1]+ Done\n");
}

#[test]
fn parse_exit_codes() {
    assert_eq!(parse_i32("0"), Some(0));
    assert_eq!(parse_i32("+12"), Some(12));
    assert_eq!(parse_i32("-12"), Some(-12));
    assert_eq!(parse_i32("2147483647"), Some(2147483647));
    assert_eq!(parse_i32("2147483648"), None);
    assert_eq!(parse_i32("-2147483648"), Some(-2147483648));
    assert_eq!(parse_i32("-2147483649"), None);
    assert_eq!(parse_i32(""), None);
    assert_eq!(parse_i32("-"), None);
    assert_eq!(parse_i32("1a"), None);
    assert_eq!(parse_i32(" 1"), None);
    assert_eq!(parse_i32("000000000000000000000000007"), Some(7));
}

#[test]
fn split_whitespace_matches_std() {
    for line in ["a b", "  a\u{2003}b\u{85}c  ", "", "   ", "x"] {
        let expected: Vec<String> = line.split_whitespace().map(|s| s.to_string()).collect();
        assert_eq!(split_whitespace(line), expected);
    }
}

#[test]
fn cd_target_and_checks() {
    assert!(matches!(target(Some("/tmp"), Some("/home/ann")), Ok(d) if d == "/tmp"));
    assert!(matches!(target(None, Some("/home/ann")), Ok(d) if d == "/home/ann"));
    assert!(matches!(target(None, None), Err(CdFailure::NoHome)));
    assert!(check(Some("/tmp"), true, true).is_ok());
    let missing = check(Some("nowhere"), false, false).unwrap_err();
    assert_eq!(missing.message(), "Directory 'nowhere' does not exist");
    assert!(missing.is_not_found());
    let file = check(Some("notes.txt"), true, false).unwrap_err();
    assert_eq!(file.message(), "'notes.txt' is not a directory");
    assert!(!file.is_not_found());
    assert_eq!(CdFailure::NoHome.message(), "Failed to retrieve home directory");
    assert!(check(None, true, true).is_ok());
}
