//! Queries that take structured data out of HTML and give it as JSON.
//!
//! A query is an object whose values are CSS selectors, the operators
//! `@text`, `@(name)`, `@parent` and `@sibling(n)`, pipes between them,
//! nested objects and bracketed values:
//!
//! ```text
//! {title: h1, links: a | [{href: @(href), label: @text}]}
//! ```
//!
//! [`parse_string`] compiles the text of a query, and [`extract`] evaluates a
//! compiled query on a document. The grammar is stated in [`grammar`], what a
//! query gives on the elements of a document in [`evaluation`], and what holds
//! of every query and every document in [`laws`]. The document itself is
//! parsed and searched by `scraper`, and the JSON is held by `serde_json`:
//! [`dom`] and [`json`] say what is taken for granted of the two.

pub mod ast;
pub mod dom;
pub mod error;
pub mod evaluation;
pub mod extractor;
pub mod grammar;
pub mod json;
pub mod laws;
pub mod parser;
pub mod scan;
pub mod text;

pub use crate::ast::{Action, Entries, Expression};
pub use crate::error::{format_error, ErrorFrame, ErrorKind, ParseError};
pub use crate::extractor::{extract, ExpressionError};
pub use crate::parser::parse_string;
