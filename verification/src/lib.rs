//! A compiler for a small declarative state-machine language.
//!
//! A machine definition names its entry states (`Init`), optional per-state
//! payload types (`Memory`), optional traced states (`Trace`), and a list of
//! events, each with its transition clauses.  The compiler lexes and parses
//! the definition, assembles and validates the machine graph, and renders
//! Rust source in which every declared transition is a typed operation, so
//! that an undeclared transition fails to type-check downstream.

pub mod ast;
pub mod codegen;
pub mod compile;
pub mod diag;
pub mod laws;
pub mod lexer;
pub mod machine;
pub mod parser;
pub mod runtime;

pub use runtime::{Event, State, SM, Transition, ToEnum, ToMemEnum, EntryPoint, Init};
