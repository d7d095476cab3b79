//! Front end and evaluator for a small dynamically typed expression language:
//! a scanner from source text to tokens, a recursive-descent parser from tokens
//! to statements, and a tree-walking interpreter.
pub mod token;
pub mod scanner;
pub mod ast;
pub mod interpreter;
pub mod parser;
pub mod lox;

pub use interpreter::RuntimeError;
pub use parser::ParseError;
