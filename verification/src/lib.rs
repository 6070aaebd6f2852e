//! Runtime for a small dynamically typed scripting language: the object
//! model, the builtin catalogue, a tree-walking evaluator and a stack-based
//! bytecode virtual machine, with the lexer that turns source text into
//! tokens.

pub mod ast;
pub mod builtins;
pub mod code;
pub mod equality;
pub mod error;
pub mod eval;
pub mod lexer;
pub mod object;
pub mod text;
pub mod token;
pub mod vm;
