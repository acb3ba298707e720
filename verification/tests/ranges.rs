use multisplice::range::get_end_bound;
use multisplice::range::get_start_bound;
use multisplice::Multisplice;
use multisplice::SpliceError;
use std::borrow::Cow;
use std::ops::Bound;

fn beep_boop() -> Multisplice<'static> {
    let mut splicer = Multisplice::new("a b c d e");
    assert_eq!(splicer.splice(2, 3, "beep"), Ok(()));
    assert_eq!(splicer.splice(6, 7, "boop"), Ok(()));
    splicer
}

#[test]
fn start_bound_resolves_to_first_offset() {
    assert_eq!(get_start_bound(Bound::Included(&3)), Some(3));
    assert_eq!(get_start_bound(Bound::Excluded(&3)), Some(4));
    assert_eq!(get_start_bound(Bound::Unbounded), Some(0));
    assert_eq!(get_start_bound(Bound::Included(&usize::MAX)), Some(usize::MAX));
}

#[test]
fn end_bound_resolves_to_offset_behind_the_range() {
    assert_eq!(get_end_bound(Bound::Included(&3), 9), Some(4));
    assert_eq!(get_end_bound(Bound::Excluded(&3), 9), Some(3));
    assert_eq!(get_end_bound(Bound::Unbounded, 9), Some(9));
    assert_eq!(get_end_bound(Bound::Excluded(&usize::MAX), 9), Some(usize::MAX));
}

#[test]
fn bound_behind_the_last_offset_resolves_to_none() {
    assert_eq!(get_start_bound(Bound::Excluded(&usize::MAX)), None);
    assert_eq!(get_end_bound(Bound::Included(&usize::MAX), 9), None);
}

#[test]
fn slice_range_takes_every_range_notation() {
    let splicer = beep_boop();
    assert_eq!(splicer.slice_range(..).unwrap(), "a beep c boop e");
    assert_eq!(splicer.slice_range(2..).unwrap(), "beep c boop e");
    assert_eq!(splicer.slice_range(3..7).unwrap(), " c boop");
    assert_eq!(splicer.slice_range(4..=6).unwrap(), "c boop");
    assert_eq!(splicer.slice_range(..3).unwrap(), "a beep");
    assert_eq!(splicer.slice_range(..=2).unwrap(), "a beep");
}

#[test]
fn slice_range_agrees_with_slice() {
    let splicer = beep_boop();
    assert_eq!(splicer.slice_range(3..7), splicer.slice(3, 7));
    assert_eq!(splicer.slice_range(3..=6), splicer.slice(3, 7));
    assert_eq!(splicer.slice_range(..), splicer.slice(0, 9));
    assert_eq!(splicer.slice_range(3..6), Ok(Cow::Borrowed(" c ")));
    assert!(matches!(splicer.slice_range(3..6), Ok(Cow::Borrowed(_))));
}

#[test]
fn slice_range_beyond_the_source_is_refused() {
    let splicer = beep_boop();
    assert_eq!(splicer.slice_range(0..10), Err(SpliceError::Bounds));
    assert_eq!(splicer.slice_range(0..=9), Err(SpliceError::Bounds));
    assert_eq!(splicer.slice_range(0..=usize::MAX), Err(SpliceError::Bounds));
    assert_eq!(splicer.slice_range(0..=8).unwrap(), "a beep c boop e");
}

#[test]
fn slice_bounds_resolves_both_ends() {
    let splicer = beep_boop();
    assert_eq!(
        splicer.slice_bounds(Bound::Excluded(&2), Bound::Included(&6)).unwrap(),
        " c boop"
    );
    assert_eq!(
        splicer.slice_bounds(Bound::Unbounded, Bound::Unbounded).unwrap(),
        "a beep c boop e"
    );
    assert_eq!(splicer.slice_bounds(Bound::Included(&7), Bound::Unbounded).unwrap(), " e");
    assert_eq!(
        splicer.slice_bounds(Bound::Excluded(&usize::MAX), Bound::Unbounded),
        Err(SpliceError::Bounds)
    );
    assert_eq!(
        splicer.slice_bounds(Bound::Unbounded, Bound::Included(&usize::MAX)),
        Err(SpliceError::Bounds)
    );
}

#[test]
fn slice_range_takes_a_pair_of_bounds() {
    let splicer = beep_boop();
    let range = (Bound::Excluded(2usize), Bound::Included(6usize));
    assert_eq!(splicer.slice_range(range).unwrap(), " c boop");
}

#[test]
fn splice_range_replaces_up_to_the_end_of_the_source() {
    let mut splicer = Multisplice::new("a b c d e");
    assert_eq!(splicer.splice_range(2..3, "beep"), Ok(()));
    {
        let replacement = "boop".to_string();
        assert_eq!(splicer.splice_range(6.., replacement), Ok(()));
    }
    assert_eq!(splicer.to_string(), "a beep c boop");
}

#[test]
fn splice_range_takes_every_range_notation() {
    let mut splicer = Multisplice::new("0123456789");
    assert_eq!(splicer.splice_range(..2, "a"), Ok(()));
    assert_eq!(splicer.splice_range(3..=4, "b"), Ok(()));
    assert_eq!(splicer.splice_range(6..7, "c"), Ok(()));
    assert_eq!(splicer.splice_range(8.., "d"), Ok(()));
    assert_eq!(splicer.to_string(), "a2b5c7d");
}

#[test]
fn splice_range_of_everything_replaces_the_source() {
    let mut splicer = Multisplice::new("a b c d e");
    assert_eq!(splicer.splice_range(.., "z"), Ok(()));
    assert_eq!(splicer.to_string(), "z");
    assert_eq!(splicer.splice_range(.., "y"), Err(SpliceError::Overlap));
}

#[test]
fn splice_range_refuses_as_splice_does() {
    let mut splicer = Multisplice::new("a b c d e");
    assert_eq!(splicer.splice_range(2..7, "beep"), Ok(()));
    assert_eq!(splicer.splice_range(4..5, "x"), Err(SpliceError::Overlap));
    assert_eq!(splicer.splice_range(7..=9, "x"), Err(SpliceError::Bounds));
    assert_eq!(splicer.splice_range(7..=usize::MAX, "x"), Err(SpliceError::Bounds));
    assert_eq!(splicer.splice_range(7..=8, "!"), Ok(()));
    assert_eq!(splicer.to_string(), "a beep!");
}

#[test]
fn splice_bounds_resolves_both_ends() {
    let mut splicer = Multisplice::new("a b c d e");
    assert_eq!(
        splicer.splice_bounds(Bound::Excluded(&1), Bound::Included(&2), Cow::Borrowed("beep")),
        Ok(())
    );
    assert_eq!(
        splicer.splice_bounds(Bound::Included(&6), Bound::Unbounded, Cow::Borrowed("boop")),
        Ok(())
    );
    assert_eq!(
        splicer.splice_bounds(Bound::Excluded(&usize::MAX), Bound::Unbounded, Cow::Borrowed("")),
        Err(SpliceError::Bounds)
    );
    assert_eq!(splicer.to_string(), "a beep c boop");
}
