pub mod bic;
pub mod error;
pub mod node;
pub mod parser;
pub mod stream;
