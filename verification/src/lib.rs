//! A semantic analyzer for a small Rust-like language.
//!
//! [`analyze`] walks a parsed program and reports every violation of the
//! language's static rules: undeclared names, assignments to immutable
//! variables, clashing types, misplaced `break` and `return`, calls that do
//! not match a declaration, and functions that can end without the
//! `return` they owe. It never stops at the first violation, and it yields
//! the empty list exactly for the programs that keep every rule.
//!
//! The modules, leaves first:
//! - [`position`], [`text`]: source positions; wording helpers.
//! - [`types`]: the types of the language and their compatibility.
//! - [`diagnostics`]: what is reported, and the collector of the reports.
//! - [`ast`]: the syntax tree that a parser hands over.
//! - [`scope`]: nested scopes of variables, and the namespace of functions.
//! - [`rules`]: what the analyzer owes for each construct, as mathematical
//!   functions; the contracts of the checkers are stated against them.
//! - [`context`], [`statements`]: the expression and statement checkers.
//! - [`analyzer`]: the driver, with its first pass over the functions.
//! - [`typing`]: the rules stated on their own, without error recovery.
//! - [`laws`]: what holds of the analyzer on every input.
//! - [`samples`], [`sample_facts`]: sample declarations, and what is
//!   reported for each.

pub mod analyzer;
pub mod ast;
pub mod context;
pub mod diagnostics;
pub mod laws;
pub mod position;
pub mod rules;
pub mod sample_facts;
pub mod samples;
pub mod scope;
pub mod statements;
pub mod text;
pub mod types;
pub mod typing;

pub use analyzer::analyze;
