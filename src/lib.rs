//! Conversion of rich-text element trees into canonical HTML fragments.
//!
//! The library holds the attribute semantics table, the coercion of JSON-like
//! values into attribute text, a diagnostics ledger of the attributes seen,
//! an arena-based fragment tree with its breadth-first traversal, and the
//! parser and serializer glue around html5ever.
pub mod attributes;
pub mod coerce;
pub mod command;
pub mod dom;
pub mod html;
pub mod ledger;
pub mod text;
pub mod traverse;
