//! Front end and evaluator of a small dynamically typed expression/statement
//! language: a token stream is parsed by recursive descent into an abstract
//! syntax tree, and that tree is walked directly to execute statements and
//! evaluate expressions against a single global variable environment.

pub mod ast;
pub mod environment;
pub mod interpreter;
pub mod laws;
pub mod parser;
pub mod scanner;
pub mod token;
pub mod value;
