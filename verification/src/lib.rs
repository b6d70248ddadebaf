//! Static semantic analysis for a small, statically typed,
//! expression-oriented specification language.
//!
//! Given a parsed program, the checker verifies type correctness and enforces
//! an affine ownership discipline: `Borrowed` values are read-only aliases,
//! `Consumed` values are owned and linearly tracked, and using a consumed
//! non-copy variable once removes it from scope. On success every block is
//! annotated with its result type and its set of mutated variables; on
//! failure a span-tagged diagnostic is reported and returned.

pub mod ast;
pub mod views;
pub mod types;
pub mod context;
pub mod rules;
pub mod typechecker;
pub mod laws;
