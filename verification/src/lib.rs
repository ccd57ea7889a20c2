//! A verified core for a small log-search query language: a lexer, a
//! recursive-descent parser with implicit conjunction, an AST, a filter
//! expression translator with a timestamp-bound rewrite, a required-column
//! collector, the sanitizing decision logic of an index-pattern file
//! resolver, and the query planner composing them. Filesystem traversal
//! and the tabular engine that executes the plan are external
//! collaborators, kept outside this crate.

use vstd::prelude::*;

pub mod text;
pub mod token;
pub mod ast;
pub mod parser;
pub mod translate;
pub mod columns;
pub mod resolve;
pub mod plan;

verus! {

} // verus!
