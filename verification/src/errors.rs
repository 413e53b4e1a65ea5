use vstd::prelude::*;

verus! {

/// Failures that can abort setup.
///
/// Per-frame picking never fails: a cursor that resolves to no cell is a
/// normal miss, not an error.
#[derive(Clone, Copy, Debug, PartialEq, Eq, Structural)]
pub enum SetupError {
    /// A layout or grid-bounds parameter is outside the accepted range.
    Configuration,
    /// The rendering collaborator produced no handle for some cell, so the
    /// grid index cannot be completed.
    HandleCreation,
}

} // verus!
