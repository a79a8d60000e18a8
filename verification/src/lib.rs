//! Cross-reference explorer for structured API descriptions.
//!
//! The crate ingests a document of named schemas and endpoint operations,
//! resolves internal schema references, extracts the field names reachable
//! from every schema and operation, and assembles a bidirectional index
//! (field -> schemas/endpoints, schema -> fields, endpoint -> fields).
//! A navigation layer keeps filtered, ranked views of the index together
//! with bounds-safe selection cursors.

pub mod assoc;
pub mod document;
pub mod events;
pub mod fuzzy;
pub mod indexer;
pub mod nav;
pub mod resolve;
pub mod schema;
pub mod text;
pub mod validate;
