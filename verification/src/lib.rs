//! Structural validator for the podcast namespace extension of RSS feeds.
//!
//! The crate takes a feed that has already been decoded into a permissive,
//! fully typed document model ([`feed`]), walks it, applies per-tag
//! cardinality and attribute rules ([`analyzer`] for single tags,
//! [`containers`] for the containers up to the document root), and produces
//! a diagnostic tree ([`diag`]) together with a stable human-readable
//! message catalog ([`messages`]).  Canonical number renderings live in
//! [`numfmt`], crate-wide guarantees in [`laws`], and a small companion
//! module parses HTTP `Range` headers ([`range_header`]).

pub mod diag;
pub mod analyzer;
pub mod containers;
pub mod feed;
pub mod laws;
pub mod messages;
pub mod numfmt;
pub mod range_header;

pub use diag::{Error, Namespace, Node, TagName, Value};
