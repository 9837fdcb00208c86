//! The geometry handed to the document builders.
//!
//! The triangulation engine owns the vertex table; the caller hands each
//! builder the table's rows from slot 1 on (slot 0, the infinite vertex, is
//! never exported) with every coordinate already rendered as text, together
//! with the finite triangles as triples of slot indices.

use vstd::prelude::*;

verus! {

/// One vertex-table row from slot 1 on, coordinates as text.  Which
/// rendering the text carries depends on the builder: the direct writer
/// takes plain number text, the quantized writer fixed-point text with the
/// configured number of fractional digits.
pub struct VertexText {
    pub x: String,
    pub y: String,
    pub z: String,
    /// Whether this slot is a removed-but-retained vertex.
    pub removed: bool,
}

/// One finite triangle, as the slot indices (all ≥ 1) of its three
/// vertices.
#[derive(Clone, Copy)]
pub struct Triangle {
    pub a: usize,
    pub b: usize,
    pub c: usize,
}

} // verus!
