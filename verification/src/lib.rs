//! Normalizes heterogeneous JSON responses from large-language-model
//! providers into one uniform in-memory representation, so downstream code
//! never branches on provider-specific shapes.
//!
//! The crate is organized leaf-first:
//! - [`json`] holds a small generic JSON value type with its mathematical
//!   model and a proved text emitter; it is both the serialization target
//!   of the normalized model and the shape the registry inspects before
//!   dispatch.
//! - [`normalized`] defines the normalized data model — the
//!   [`normalized::ContentBlock`] variants and the
//!   [`normalized::ContentFrame`] envelope — together with their
//!   structural (de)serialization, which is proved to round-trip.
//! - [`parser`] defines the contract every provider-specific translator
//!   implements, and the error taxonomy.
//! - [`registry`] holds an ordered collection of translators and hands a
//!   raw response to the first one that claims its model identifier.
//! - [`raw`] is the boundary to the JSON text parser of the `serde_json`
//!   crate; everything past that boundary is verified.

pub mod json;
pub mod normalized;
pub mod parser;
pub mod raw;
pub mod registry;
