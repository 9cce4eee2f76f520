//! Semantic-analysis core of a compiler for a circuit-description language.
//!
//! Two responsibilities form the library: a type-checking pass over function
//! and circuit/record declarations (`type_checker`), and a recursive import
//! resolver that walks a modelled source-file hierarchy and installs imported
//! declarations into a definition store under qualified names (`resolver`).
//! The surrounding compiler performs the file I/O and parsing; this crate
//! receives their results as plain values and is verified end to end.

pub mod ast;
pub mod diagnostics;
pub mod symbol_table;
pub mod type_checker;
pub mod source_tree;
pub mod store;
pub mod resolver;

