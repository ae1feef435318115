//! The front end of a tree-walking interpreter: a scanner that turns
//! source text into tokens, and the expression tree built from them.

pub mod charclass;
pub mod diagnostic;
pub mod expr;
pub mod grammar;
pub mod laws;
pub mod lox;
pub mod number;
pub mod scanner;
pub mod text;
pub mod token;
pub mod token_type;
