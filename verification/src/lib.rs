//! Extraction of language-neutral descriptions of data-shape declarations.
//!
//! The library models record types, tagged unions and functions as a small
//! recursive schema, indexes source locations, resolves well-known generic
//! wrappers to canonical built-in containers, converts raw declarations into
//! wire-ready documents, reconciles partially resolved schemas with traced
//! ones, and encodes/decodes the JSON documents exchanged with an external
//! generator process.

pub mod builtins;
pub mod classify;
pub mod codec;
pub mod convert;
pub mod gen1;
pub mod json;
pub mod line_index;
pub mod merge;
pub mod protocol;
pub mod schema;
pub mod span;
pub mod stdx;
pub mod strutil;
pub mod wire;
