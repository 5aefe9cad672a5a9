//! A verified engine that turns raw tracking-pixel access-log lines into
//! flattened, typed records tagged by an action category.
//!
//! One line is tab-separated metadata plus an embedded JSON request body.
//! The engine tokenizes the line, parses the body, filters semantically-null
//! values, flattens the nested body into a single-level record (decoding one
//! obfuscated field on the way), classifies the record by its `action_name`,
//! and merges the line metadata into the result.

pub mod action_names;
pub mod chars;
pub mod errors;
pub mod decode;
pub mod flatten;
pub mod json;
pub mod numfmt;
pub mod parser;
pub mod tokenize;
