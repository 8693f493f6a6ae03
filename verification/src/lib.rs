//! An opinionated formatter for Lua source code, working on a concrete syntax
//! tree whose tokens carry their surrounding whitespace and comments.

pub mod ast;
pub mod block;
pub mod close;
pub mod config;
pub mod edge_laws;
pub mod edges;
pub mod ending_laws;
pub mod endings;
pub mod expression;
pub mod flatten;
pub mod formatter;
pub mod hang;
pub mod hang_laws;
pub mod laws;
pub mod layout;
pub mod layout_laws;
pub mod list_laws;
pub mod measure;
pub mod output;
pub mod pieces;
pub mod quote;
pub mod range;
pub mod rewrite;
pub mod sequences;
pub mod statement;
pub mod tidy;
pub mod tidy_edges;
pub mod tidy_endings;
pub mod tidy_hang;
pub mod tidy_layout;
pub mod token;
pub mod token_laws;
pub mod trivia;
pub mod twice;
pub mod vectors;
pub mod view;
