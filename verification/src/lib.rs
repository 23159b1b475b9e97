//! A compiler core for a small structured-imperative language: source text is
//! parsed by an ordered-choice recursive-descent parser into an AST, the AST is
//! lowered into an SSA-style intermediate representation of functions and basic
//! blocks, and the finished module is structurally verified (every block
//! terminated, every reference resolved) before it may be handed to target
//! emission. Diagnostics render every failure as a positioned message.

pub mod ast;
pub mod errors;
pub mod parser;
pub mod ir;
pub mod codegen;
pub mod pretty;
pub mod diag;
