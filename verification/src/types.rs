//! Scalar identifier and label types shared by the pattern-graph model
//! and the fixed-width record shapes of the surrounding tooling.

use vstd::prelude::*;

verus! {

/// Type of vertex id
pub type VId = i32;

/// Type of vertex label
pub type VLabel = i16;

/// Type of edge label
pub type ELabel = i16;

/// A vertex row: identifier and label.
pub struct VIdVLabel(pub VId, pub VLabel);

/// An arc/edge row: source, destination and label.
pub struct VIdVIdELabel(pub VId, pub VId, pub ELabel);

} // verus!
