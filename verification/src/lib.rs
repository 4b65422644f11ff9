pub mod ast;
pub mod error;
pub mod parser;
pub mod numeric;
pub mod operations;
pub mod token;
