//! Range notation: from the two bounds of a range to the offsets that it
//! stands for.

use std::ops::Bound;
use std::ops::RangeBounds;
use vstd::prelude::*;

verus! {

/// [`Bound`], the end of a range as std has it, with its three variants:
/// included, excluded, and unbounded.
#[verifier::external_type_specification]
#[verifier::reject_recursive_types(T)]
pub struct ExBound<T>(Bound<T>);

/// The first offset of a range that starts at `bound`: the bound itself where
/// it is included, the offset after it where it is excluded, and 0 where the
/// range has no lower bound.
pub open spec fn start_offset(bound: Bound<&usize>) -> int {
    match bound {
        Bound::Included(n) => *n as int,
        Bound::Excluded(n) => *n + 1,
        Bound::Unbounded => 0,
    }
}

/// The offset at which a range that ends at `bound` stops, itself not part of
/// the range: the bound where it is excluded, the offset after it where it is
/// included, and `unbounded` where the range has no upper bound.
pub open spec fn end_offset(bound: Bound<&usize>, unbounded: int) -> int {
    match bound {
        Bound::Included(n) => *n + 1,
        Bound::Excluded(n) => *n as int,
        Bound::Unbounded => unbounded,
    }
}

/// The offset `at` as a machine integer, where it is one.
pub open spec fn representable(at: int) -> Option<usize> {
    if 0 <= at <= usize::MAX {
        Some(at as usize)
    } else {
        None
    }
}

/// Computes [`start_offset`]; `None` where the offset is beyond every `usize`.
pub fn get_start_bound(bound: Bound<&usize>) -> (offset: Option<usize>)
    ensures
        offset == representable(start_offset(bound)),
{
    match bound {
        Bound::Included(n) => Some(*n),
        Bound::Excluded(n) => n.checked_add(1),
        Bound::Unbounded => Some(0),
    }
}

/// Computes [`end_offset`]; `None` where the offset is beyond every `usize`.
pub fn get_end_bound(bound: Bound<&usize>, unbounded: usize) -> (offset: Option<usize>)
    ensures
        offset == representable(end_offset(bound, unbounded as int)),
{
    match bound {
        Bound::Included(n) => n.checked_add(1),
        Bound::Excluded(n) => Some(*n),
        Bound::Unbounded => Some(unbounded),
    }
}

/// The lower bound of `range`, as [`RangeBounds::start_bound`] hands it out.
/// Which bound an implementation of the trait gives is its own affair: nothing
/// is claimed of it.
#[verifier::external_body]
pub(crate) fn start_bound_of<R: RangeBounds<usize>>(range: &R) -> (bound: Bound<&usize>) {
    range.start_bound()
}

/// The upper bound of `range`, as [`RangeBounds::end_bound`] hands it out.
/// Which bound an implementation of the trait gives is its own affair: nothing
/// is claimed of it.
#[verifier::external_body]
pub(crate) fn end_bound_of<R: RangeBounds<usize>>(range: &R) -> (bound: Bound<&usize>) {
    range.end_bound()
}

} // verus!
