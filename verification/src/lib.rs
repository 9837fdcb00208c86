//! Attribute schema and structured export for a 2.5D triangulation.
//!
//! The triangulation engine itself is an external collaborator: callers hand
//! this library the vertex table (as already-formatted coordinate text), the
//! removed-vertex flags and the finite triangles, and the library owns the
//! declared attribute schema, the per-vertex attribute store validated
//! against it, the column-oriented encoding with per-type sentinels, and the
//! two geometry document builders (a direct feature-collection writer and a
//! scale/translate quantized writer).

pub mod chars_util;
pub mod codec;
pub mod direct_writer;
pub mod fixedpoint;
pub mod geom;
pub mod numtext;
pub mod options;
pub mod quantized_writer;
pub mod schema;
pub mod store;
pub mod values;
