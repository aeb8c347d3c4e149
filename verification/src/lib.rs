//! A compiler for the Vit language: tokens are parsed into a program,
//! and the program is lowered to a description of the LLVM module to build.
use vstd::prelude::*;

pub mod ast;
pub mod text;
pub mod token;
pub mod grammar;
pub mod parser;
pub mod expr;
pub mod stmt;
pub mod program;
pub mod laws;
pub mod llvm;
pub mod table;
pub mod vtype;
pub mod display;
pub mod codegen;
pub mod lexer;
pub mod driver;
pub mod listing;
pub mod precedence;

verus! {
} // verus!
