//! A documentation rendering engine for a small expression language: it
//! turns structured documentation sources (operator, function, aggregation
//! and scraping references, plus a free-form cheatsheet) into a
//! color-annotated terminal rendering or a portable Markdown rendering,
//! with keyword-based section filtering and stable anchor-slug generation.

pub mod ansi;
pub mod chars;
pub mod cheatsheet;
pub mod colorize;
pub mod facade;
pub mod model;
pub mod render_fns;
pub mod render_ops;
pub mod scan;
pub mod slug;
pub mod wrap;
