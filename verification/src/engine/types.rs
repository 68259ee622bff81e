use vstd::prelude::*;

verus! {

/// A word or an operator of the pipeline language.
#[derive(Debug)]
pub enum Token {
    Arg(String),
    Pipe,
    And,
    Or,
}

/// How a token is written.
pub open spec fn token_text(t: Token) -> Seq<char> {
    match t {
        Token::Arg(arg) => arg@,
        Token::Pipe => "|"@,
        Token::Or => "||"@,
        Token::And => "&&"@,
    }
}

/// How tightly a token binds; words bind least.
pub open spec fn token_precedence(t: Token) -> u8 {
    match t {
        Token::Arg(_) => 0,
        Token::And => 1,
        Token::Or => 1,
        Token::Pipe => 2,
    }
}

impl Token {
    pub fn precedence(&self) -> (p: u8)
        ensures
            p == token_precedence(*self),
    {
        match self {
            Token::Arg(_) => 0,
            Token::And | Token::Or => 1,
            Token::Pipe => 2,
        }
    }

    /// The text the token is written with.
    pub fn to_string(&self) -> (s: String)
        ensures
            s@ == token_text(*self),
    {
        match self {
            Token::Arg(arg) => arg.clone(),
            Token::Pipe => String::from_str("|"),
            Token::Or => String::from_str("||"),
            Token::And => String::from_str("&&"),
        }
    }
}

/// A command with its arguments, or two commands joined by an operator.
#[derive(Debug)]
pub enum Cmd {
    Command(Vec<String>),
    BinaryOp(Box<Cmd>, Operator, Box<Cmd>),
}

#[derive(Debug, PartialEq, Eq, Structural, Clone, Copy)]
pub enum Operator {
    And,
    Or,
    Pipe,
}

} // verus!
