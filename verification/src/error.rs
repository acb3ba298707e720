//! The two ways in which an operation can be refused.

use vstd::prelude::*;

verus! {

/// Why a registration or a query was refused.
#[derive(Debug, Clone, Copy, PartialEq, Eq, Structural)]
pub enum SpliceError {
    /// The start of a new edit falls inside a range that is already replaced.
    Overlap,
    /// An offset does not address a position of the source: it lies beyond
    /// the end of the text, inside a character, or before the start of its
    /// own range.
    Bounds,
}

} // verus!
