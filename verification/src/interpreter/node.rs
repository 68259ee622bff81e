use vstd::prelude::*;

verus! {

/// A job tree: a command with its words, or two trees joined by an operator.
#[derive(Debug)]
pub enum Ast {
    Command(Vec<String>),
    Pipe(Box<Ast>, Box<Ast>),
    Background(Box<Ast>, Box<Ast>),
    Logic(Box<Ast>, Box<Ast>, LogicType),
    Redirect(Box<Ast>, Box<Ast>, RedirectType),
    Separator(Box<Ast>, Box<Ast>),
}

#[derive(Debug, Clone, Copy, PartialEq, Eq, Structural)]
pub enum LogicType {
    And,
    Or,
}

#[derive(Debug, Clone, Copy, PartialEq, Eq, Structural)]
pub enum RedirectType {
    Overwrite,
    Input,
    Append,
    Error,
}

/// A word or an operator of the job language.
#[derive(Debug, Clone)]
pub enum Token {
    Arg(String),
    Pipe,
    Background,
    Logic(LogicType),
    Redirect(RedirectType),
    Separator,
}

/// A token with its word taken as a sequence of characters.
pub enum TokenModel {
    Arg(Seq<char>),
    Pipe,
    Background,
    Logic(LogicType),
    Redirect(RedirectType),
    Separator,
}

impl View for Token {
    type V = TokenModel;

    open spec fn view(&self) -> TokenModel {
        match self {
            Token::Arg(s) => TokenModel::Arg(s@),
            Token::Pipe => TokenModel::Pipe,
            Token::Background => TokenModel::Background,
            Token::Logic(t) => TokenModel::Logic(*t),
            Token::Redirect(t) => TokenModel::Redirect(*t),
            Token::Separator => TokenModel::Separator,
        }
    }
}

/// The name an operator token goes by in a message: its variant, with the
/// kind of a logical operator or a redirection in brackets. (Words are never
/// named this way; they stand as the empty text.)
pub open spec fn operator_name(t: TokenModel) -> Seq<char> {
    match t {
        TokenModel::Arg(_) => Seq::empty(),
        TokenModel::Pipe => "Pipe"@,
        TokenModel::Background => "Background"@,
        TokenModel::Separator => "Separator"@,
        TokenModel::Logic(LogicType::And) => "Logic(And)"@,
        TokenModel::Logic(LogicType::Or) => "Logic(Or)"@,
        TokenModel::Redirect(RedirectType::Overwrite) => "Redirect(Overwrite)"@,
        TokenModel::Redirect(RedirectType::Input) => "Redirect(Input)"@,
        TokenModel::Redirect(RedirectType::Append) => "Redirect(Append)"@,
        TokenModel::Redirect(RedirectType::Error) => "Redirect(Error)"@,
    }
}

/// The name of the operator token `t`.
pub fn describe(t: &Token) -> (s: String)
    requires
        !(t is Arg),
    ensures
        s@ == operator_name(t@),
{
    proof {
        reveal_strlit("Pipe");
        reveal_strlit("Background");
        reveal_strlit("Separator");
        reveal_strlit("Logic(And)");
        reveal_strlit("Logic(Or)");
        reveal_strlit("Redirect(Overwrite)");
        reveal_strlit("Redirect(Input)");
        reveal_strlit("Redirect(Append)");
        reveal_strlit("Redirect(Error)");
    }
    match t {
        Token::Arg(_) => String::new(),
        Token::Pipe => String::from_str("Pipe"),
        Token::Background => String::from_str("Background"),
        Token::Separator => String::from_str("Separator"),
        Token::Logic(LogicType::And) => String::from_str("Logic(And)"),
        Token::Logic(LogicType::Or) => String::from_str("Logic(Or)"),
        Token::Redirect(RedirectType::Overwrite) => String::from_str("Redirect(Overwrite)"),
        Token::Redirect(RedirectType::Input) => String::from_str("Redirect(Input)"),
        Token::Redirect(RedirectType::Append) => String::from_str("Redirect(Append)"),
        Token::Redirect(RedirectType::Error) => String::from_str("Redirect(Error)"),
    }
}

} // verus!
