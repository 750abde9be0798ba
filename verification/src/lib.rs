//! A compiler-plugin core that extracts the top-level declarations of a
//! compilation unit and emits them as a deterministic JSON report.
//!
//! The host compiler hands the harness one `Decl` per top-level declaration;
//! the extractor turns each into an `Item` record, optionally upper-casing
//! its name, and the serializer encodes the ordered records as a JSON array.

pub mod config;
pub mod extract;
pub mod json;
pub mod plugin;
pub mod record;
