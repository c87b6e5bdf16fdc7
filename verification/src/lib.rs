//! A verified interpreter for a minimal expression language.
//!
//! Source text is lexed into tokens, parsed into an abstract syntax tree by
//! precedence climbing, statically type-checked, and finally evaluated.  The
//! language offers integer and string literals, the four arithmetic binary
//! operators, parenthesized grouping, identifiers, and a left-to-right
//! pipeline operator that feeds a value into the built-in `print` action.
//!
//! Every stage is specified by a spec-level model (`Tok`, `ExprS`, `ValS`)
//! and the executable code is proved to agree with that model.  The only
//! side effect, printing, is modelled as a growing sequence of output lines;
//! an unverified front end is expected to write those lines out.

pub mod ast;
pub mod evaluator;
pub mod interpreter;
pub mod lexer;
pub mod parser;
pub mod text;
pub mod typechecker;
