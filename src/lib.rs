//! A tokenizer for a JavaScript/TypeScript-like language, with every token's
//! classification proved against a mathematical model of the scanner.

pub mod laws;
pub mod lexer;
pub mod model;
pub mod token;

pub use lexer::Lexer;
pub use token::{Lexeme, Token};
