//! A small interpreted language toolchain, verified end to end: a lexer,
//! a recursive-descent parser, a bytecode compiler and a stack virtual
//! machine, each stage's behaviour pinned by its contracts. Runtime
//! values are IEEE-754 doubles carried as bit patterns; their arithmetic
//! goes through `rustc_apfloat` behind a handful of trusted wrappers.

pub mod ast;
pub mod cli;
pub mod compiler;
pub mod errors;
pub mod instruction;
pub mod laws;
pub mod lexer;
pub mod tokens;
pub mod value;
pub mod vm;
