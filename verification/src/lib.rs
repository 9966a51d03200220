//! Front end and evaluator of a small dynamically typed scripting language:
//! a character lexer, an operator registry, a runtime object model, the
//! evaluation frame and a precedence-driven expression evaluator.
//!
//! Every executable function carries a contract stated over the mathematical
//! views of the data it handles.

pub mod chars;
pub mod object;
pub mod list;
pub mod text;
pub mod number;
pub mod frame;
pub mod operator;
pub mod token;
pub mod error;
pub mod grammar;
pub mod stream;
pub mod parser;
pub mod laws;
pub mod shift;
