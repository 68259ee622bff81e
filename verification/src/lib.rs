pub mod engine;
pub mod interpreter;
pub mod run;
pub mod text;
pub mod repl;
pub mod rush;
pub mod shell;
pub mod terminal;
