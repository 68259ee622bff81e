pub mod ast;
pub mod bic;
pub mod error;
pub mod executor;
pub mod node;
pub mod parser;
pub mod tokenizer;
pub mod grammar;
