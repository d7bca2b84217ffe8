//! RNF: lexer, parser and runtime support for the RNF scripting language.
use vstd::prelude::*;

pub mod text;
pub mod lexer;
pub mod ast;
pub mod parser;
pub mod source;
pub mod env;
pub mod runtime;
pub mod project;
pub mod precedence;
pub mod type_syntax;
pub mod value;
pub mod machine;
pub mod diagnostics;

verus! {
} // verus!
