//! Dynamic statement templates: a template with conditional, iterative and
//! substitution directives is parsed into a syntax tree once, and rendered
//! against a context of named values into a statement text with positional
//! placeholders and the values that are bound to them, in order.
//!
//! The engine is `lexer`, `parser`, `expr`, `eval` and `render`, over the
//! node model of `syntax_tree` and the values of `value`; `laws` states what
//! holds of every rendering. `sql::page` cuts results into pages.

pub mod cache;
pub mod convert;
pub mod decimal;
pub mod eval;
pub mod expr;
pub mod integer;
pub mod laws;
pub mod lexer;
pub mod number;
pub mod parser;
pub mod render;
pub mod shaping;
pub mod sql;
pub mod syntax_tree;
pub mod text;
pub mod types;
pub mod value;
pub mod value_ref;
