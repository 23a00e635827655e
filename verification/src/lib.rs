//! Serialization core for the SHN tabular record format: a typed in-memory
//! model of a decoded file (header bytes, column schema, rows of typed cells)
//! and its deterministic rendering as an XML document, together with the
//! lookup that resolves a textual encoding name against the registered
//! encodings.

pub mod escape;
pub mod registry;
pub mod serialize;
pub mod text;
pub mod types;
