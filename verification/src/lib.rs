//! Vertex buffer layouts from annotated record fields.
//!
//! A record is described by its fields in declaration order. A field may carry
//! annotations: a format tag with a shader location, or a matrix tag with a
//! component type and a starting location. From such a description the crate
//! computes the byte stride and the attribute list of a vertex buffer layout,
//! and the packed companion record that keeps only the annotated fields.

pub mod converter;
pub mod error;
pub mod format;
pub mod layout;
pub mod naming;
pub mod packed;
pub mod schema;
pub mod text;
