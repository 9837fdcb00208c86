//! The option vocabularies the caller selects by name: how xy-duplicates
//! are handled on insertion, the bulk-insertion strategy, and the spatial
//! interpolation method.  The engine consumes the parsed choice; parsing
//! the name, and rejecting an unknown one, is decided here.

use vstd::prelude::*;

use crate::chars_util::str_eq;

verus! {

/// Which z-value (and attributes) to keep when a new point falls on an
/// existing vertex.
#[derive(Clone, Copy, Debug, PartialEq, Eq)]
pub enum DuplicatesHandling {
    First,
    Last,
    Lowest,
    Highest,
}

/// The order in which a batch of points is inserted.
#[derive(Clone, Copy, Debug, PartialEq, Eq)]
pub enum InsertionStrategy {
    AsIs,
    BBox,
}

/// The spatial interpolation method selected by name.
#[derive(Clone, Copy, Debug, PartialEq, Eq)]
pub enum InterpolationMethod {
    Idw,
    Laplace,
    Nn,
    Nni,
    TinLinear,
}

/// Parses a duplicates-handling name; `None` for an unknown name.
pub fn parse_duplicates_handling(m: &str) -> (r: Option<DuplicatesHandling>)
    ensures
        match r {
            Some(DuplicatesHandling::First) => m@ == "First"@,
            Some(DuplicatesHandling::Last) => m@ == "Last"@,
            Some(DuplicatesHandling::Lowest) => m@ == "Lowest"@,
            Some(DuplicatesHandling::Highest) => m@ == "Highest"@,
            None => m@ != "First"@ && m@ != "Last"@ && m@ != "Lowest"@ && m@ != "Highest"@,
        },
{
    if str_eq(m, "First") {
        Some(DuplicatesHandling::First)
    } else if str_eq(m, "Last") {
        Some(DuplicatesHandling::Last)
    } else if str_eq(m, "Lowest") {
        Some(DuplicatesHandling::Lowest)
    } else if str_eq(m, "Highest") {
        Some(DuplicatesHandling::Highest)
    } else {
        None
    }
}

/// Parses an insertion-strategy name; `None` for an unknown name.
pub fn parse_insertion_strategy(m: &str) -> (r: Option<InsertionStrategy>)
    ensures
        match r {
            Some(InsertionStrategy::AsIs) => m@ == "AsIs"@,
            Some(InsertionStrategy::BBox) => m@ == "BBox"@,
            None => m@ != "AsIs"@ && m@ != "BBox"@,
        },
{
    if str_eq(m, "AsIs") {
        Some(InsertionStrategy::AsIs)
    } else if str_eq(m, "BBox") {
        Some(InsertionStrategy::BBox)
    } else {
        None
    }
}

/// Parses an interpolation-method name; `None` for an unknown name.
pub fn parse_interpolation_method(m: &str) -> (r: Option<InterpolationMethod>)
    ensures
        match r {
            Some(InterpolationMethod::Idw) => m@ == "IDW"@,
            Some(InterpolationMethod::Laplace) => m@ == "Laplace"@,
            Some(InterpolationMethod::Nn) => m@ == "NN"@,
            Some(InterpolationMethod::Nni) => m@ == "NNI"@,
            Some(InterpolationMethod::TinLinear) => m@ == "TIN"@,
            None => m@ != "IDW"@ && m@ != "Laplace"@ && m@ != "NN"@ && m@ != "NNI"@ && m@
                != "TIN"@,
        },
{
    if str_eq(m, "IDW") {
        Some(InterpolationMethod::Idw)
    } else if str_eq(m, "Laplace") {
        Some(InterpolationMethod::Laplace)
    } else if str_eq(m, "NN") {
        Some(InterpolationMethod::Nn)
    } else if str_eq(m, "NNI") {
        Some(InterpolationMethod::Nni)
    } else if str_eq(m, "TIN") {
        Some(InterpolationMethod::TinLinear)
    } else {
        None
    }
}

} // verus!
