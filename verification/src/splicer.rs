//! The splicer: a source text, the edits registered against it, and the
//! operations that register an edit and render a window.

use crate::error::SpliceError;
use crate::laws::lemma_spliced_well_formed;
use crate::model::Edit;
use crate::model::Registry;
use crate::range::end_bound_of;
use crate::range::end_offset;
use crate::range::get_end_bound;
use crate::range::get_start_bound;
use crate::range::start_bound_of;
use crate::range::start_offset;
use crate::text::byte_len;
use crate::text::substr;
use std::borrow::Cow;
use std::ops::Bound;
use std::ops::RangeBounds;
use vstd::prelude::*;
use vstd::string::StringExecFns;
use vstd::string::StringSliceAdditionalSpecFns;

verus! {

/// A stored edit: the byte range to replace and the replacement.
#[derive(Debug)]
struct Splice<'a> {
    start: usize,
    end: usize,
    value: Cow<'a, str>,
}

impl<'a> Splice<'a> {
    spec fn model(self) -> Edit {
        Edit { start: self.start as int, end: self.end as int, text: self.value@ }
    }

    /// The replacement text.
    fn text(&self) -> (text: &str)
        ensures
            text@ == self.value@,
    {
        match &self.value {
            Cow::Borrowed(borrowed) => borrowed,
            Cow::Owned(owned) => owned.as_str(),
        }
    }
}

/// Whether a registration of `edit` that answered `result` took the registry
/// `before` to `after` as [`Registry::spliced`] says: an accepted edit is
/// stored, a refused one changes nothing and is answered with its reason.
pub open spec fn registers(
    before: Registry,
    edit: Edit,
    after: Registry,
    result: Result<(), SpliceError>,
) -> bool {
    match before.spliced(edit) {
        Ok(registry) => result is Ok && after == registry,
        Err(error) => result == Err::<(), SpliceError>(error) && after == before,
    }
}

/// Whether `result` answers the query for the window `[start, end)` of
/// `registry`: the rendering of a window that the source has, borrowed exactly
/// where it is one piece of the source; [`SpliceError::Bounds`] for any other
/// window.
pub open spec fn answers<'a>(
    registry: Registry,
    start: int,
    end: int,
    result: Result<Cow<'a, str>, SpliceError>,
) -> bool {
    match result {
        Ok(text) => {
            &&& registry.window(start, end)
            &&& text@ == registry.render(start, end)
            &&& text is Borrowed <==> registry.verbatim(start, end)
        },
        Err(error) => error == SpliceError::Bounds && !registry.window(start, end),
    }
}

/// A source text with the replacements registered against it.
///
/// Its view is the [`Registry`] that it stands for. Every splicer is well
/// formed: each stored range is one of the source, and the ranges are kept in
/// ascending order of their start.
#[derive(Debug)]
pub struct Multisplice<'a> {
    source: &'a str,
    splices: Vec<Splice<'a>>,
}

impl<'a> View for Multisplice<'a> {
    type V = Registry;

    closed spec fn view(&self) -> Registry {
        Registry {
            source: self.source@,
            edits: Seq::new(self.splices@.len(), |i: int| self.splices@[i].model()),
        }
    }
}

impl<'a> Multisplice<'a> {
    #[verifier::type_invariant]
    spec fn sound(self) -> bool {
        self@.well_formed()
    }

    /// A splicer for `source`, with no edits.
    pub fn new(source: &'a str) -> (splicer: Self)
        ensures
            splicer@ == Registry::fresh(source@),
            splicer@.well_formed(),
    {
        let splicer = Multisplice { source, splices: Vec::new() };
        assert(splicer@.edits =~= Seq::empty());
        splicer
    }

    /// Registers the replacement of the bytes `[start, end)` of the source by
    /// `value`.
    ///
    /// The range must be one of the source: `start <= end`, `end` within the
    /// text, and neither offset inside a character; otherwise the edit is
    /// refused with [`SpliceError::Bounds`]. An edit whose start lies inside a
    /// stored range is refused with [`SpliceError::Overlap`]. A refused edit
    /// leaves the splicer as it was. An accepted edit is stored before the first
    /// stored edit that starts after it.
    pub fn splice_cow(&mut self, start: usize, end: usize, value: Cow<'a, str>) -> (result: Result<
        (),
        SpliceError,
    >)
        ensures
            final(self)@.well_formed(),
            registers(
                old(self)@,
                (Edit { start: start as int, end: end as int, text: value@ }),
                final(self)@,
                result,
            ),
    {
        proof {
            use_type_invariant(&*self);
        }
        if start > end || end > byte_len(self.source) || !self.source.is_char_boundary(start)
            || !self.source.is_char_boundary(end) {
            return Err(SpliceError::Bounds);
        }
        let ghost registry = self@;
        let ghost edit = Edit { start: start as int, end: end as int, text: value@ };
        let count = self.splices.len();
        let mut at: usize = 0;
        while at < count
            invariant_except_break
                registry.slot_from(start as int, at as int) == registry.slot(start as int),
            invariant
                at <= count,
                count == self.splices.len(),
                registry == self@,
                registry == old(self)@,
                registry.well_formed(),
                registry.admits(edit),
                edit == (Edit { start: start as int, end: end as int, text: value@ }),
                forall|i: int| 0 <= i < at ==> !(#[trigger] registry.edits[i]).covers(start as int),
            ensures
                at <= count,
                at == registry.slot(start as int),
                !registry.conflicts(start as int),
            decreases count - at,
        {
            let splice = &self.splices[at];
            if splice.start <= start && start < splice.end {
                assert(registry.edits[at as int].covers(start as int));
                return Err(SpliceError::Overlap);
            }
            if splice.start > start {
                assert forall|i: int| at <= i < count implies !(#[trigger] registry.edits[i]).covers(
                    start as int,
                ) by {
                    // From here on every edit starts after the new one.
                    assert(registry.edits[at as int].start <= registry.edits[i].start);
                }
                break;
            }
            at += 1;
        }
        let mut splices = Vec::new();
        std::mem::swap(&mut splices, &mut self.splices);
        splices.insert(at, Splice { start, end, value });
        proof {
            lemma_spliced_well_formed(registry, edit);
            let next = Multisplice { source: self.source, splices };
            assert(next@.edits =~= registry.edits.insert(at as int, edit));
        }
        self.splices = splices;
        Ok(())
    }

    /// Registers the replacement of the bytes `[start, end)` of the source by
    /// the text that `value` converts into.
    ///
    /// The conversion is the caller's: the edit registered holds the text of
    /// what [`Into::into`] made of `value`. For a string slice and for a
    /// `String` that is the text of the string.
    pub fn splice<V: Into<Cow<'a, str>>>(&mut self, start: usize, end: usize, value: V) -> (result:
        Result<(), SpliceError>)
        ensures
            final(self)@.well_formed(),
            exists|text: Cow<'a, str>|
                {
                    &&& #[trigger] call_ensures(V::into, (value,), text)
                    &&& registers(
                        old(self)@,
                        (Edit { start: start as int, end: end as int, text: text@ }),
                        final(self)@,
                        result,
                    )
                },
    {
        self.splice_cow(start, end, value.into())
    }

    /// Registers the replacement by `value` of the range that the bounds
    /// `start` and `end` stand for: from [`start_offset`] to [`end_offset`], a
    /// range without an upper bound reaching to the end of the source.
    pub fn splice_bounds(
        &mut self,
        start: Bound<&usize>,
        end: Bound<&usize>,
        value: Cow<'a, str>,
    ) -> (result: Result<(), SpliceError>)
        ensures
            final(self)@.well_formed(),
            registers(
                old(self)@,
                (Edit {
                    start: start_offset(start),
                    end: end_offset(end, old(self)@.len()),
                    text: value@,
                }),
                final(self)@,
                result,
            ),
    {
        proof {
            use_type_invariant(&*self);
        }
        let len = byte_len(self.source);
        match (get_start_bound(start), get_end_bound(end, len)) {
            (Some(from), Some(to)) => self.splice_cow(from, to, value),
            _ => Err(SpliceError::Bounds),
        }
    }

    /// Registers the replacement of the range that `range` stands for by the
    /// text that `value` converts into.
    ///
    /// The bounds are those that `range` hands out, and the text is what
    /// [`Into::into`] made of `value`, whatever they are; with them the edit is
    /// registered as [`Multisplice::splice_bounds`] does.
    pub fn splice_range<R: RangeBounds<usize>, V: Into<Cow<'a, str>>>(
        &mut self,
        range: R,
        value: V,
    ) -> (result: Result<(), SpliceError>)
        ensures
            final(self)@.well_formed(),
            exists|start: Bound<&usize>, end: Bound<&usize>, text: Cow<'a, str>|
                {
                    &&& #[trigger] call_ensures(V::into, (value,), text)
                    &&& #[trigger] registers(
                        old(self)@,
                        (Edit {
                            start: start_offset(start),
                            end: end_offset(end, old(self)@.len()),
                            text: text@,
                        }),
                        final(self)@,
                        result,
                    )
                },
    {
        let start = start_bound_of(&range);
        let end = end_bound_of(&range);
        self.splice_bounds(start, end, value.into())
    }

    /// Renders the window `[start, end)` of the source with the stored edits
    /// applied.
    ///
    /// Both offsets are byte offsets into the source and must be positions of
    /// it; otherwise the query is refused with [`SpliceError::Bounds`]. A
    /// replacement is never cut: where the window starts or ends inside a
    /// stored range, the whole replacement is part of the result. Where the
    /// scan of the edits emits nothing and the window does not end before its
    /// cursor, the result is borrowed from the source.
    pub fn slice(&self, start: usize, end: usize) -> (result: Result<Cow<'a, str>, SpliceError>)
        ensures
            answers(self@, start as int, end as int, result),
            end > self@.len() ==> result == Err::<Cow<'a, str>, SpliceError>(SpliceError::Bounds),
    {
        proof {
            use_type_invariant(self);
        }
        let len = byte_len(self.source);
        if start > len || end > len || !self.source.is_char_boundary(start)
            || !self.source.is_char_boundary(end) {
            return Err(SpliceError::Bounds);
        }
        let ghost registry = self@;
        let ghost goal = registry.scan(start as int, end as int);
        let mut result = String::new();
        let mut last = start;
        let count = self.splices.len();
        let mut at: usize = 0;
        while at < count
            invariant_except_break
                result@ + registry.scan_from(at as int, last as int, end as int).text == goal.text,
                registry.scan_from(at as int, last as int, end as int).cursor == goal.cursor,
            invariant
                at <= count,
                count == self.splices.len(),
                registry == self@,
                registry.well_formed(),
                registry.addressable(last as int),
                registry.addressable(end as int),
                registry.bytes() == self.source.spec_bytes(),
            ensures
                result@ == goal.text,
                last == goal.cursor,
            decreases count - at,
        {
            let splice = &self.splices[at];
            let ghost edit = registry.edits[at as int];
            let ghost before = result@;
            if splice.end > last {
                if splice.start >= end {
                    break;
                }
                if splice.start >= last {
                    result.append(substr(self.source, last, splice.start));
                }
                result.append(splice.text());
                let ghost rest = registry.scan_from(at + 1, edit.end, end as int).text;
                assert(result@ + rest =~= before + (registry.span(last as int, edit.start)
                    + edit.text + rest));
                last = splice.end;
            }
            at += 1;
        }
        if end >= last {
            if result.as_str().is_empty() {
                return Ok(Cow::Borrowed(substr(self.source, last, end)));
            }
            result.append(substr(self.source, last, end));
        }
        Ok(Cow::Owned(result))
    }

    /// Renders the window that the bounds `start` and `end` of a range stand
    /// for: from [`start_offset`] to [`end_offset`], a range without an upper
    /// bound reaching to the end of the source.
    pub fn slice_bounds(&self, start: Bound<&usize>, end: Bound<&usize>) -> (result: Result<
        Cow<'a, str>,
        SpliceError,
    >)
        ensures
            answers(self@, start_offset(start), end_offset(end, self@.len()), result),
    {
        let len = byte_len(self.source);
        match (get_start_bound(start), get_end_bound(end, len)) {
            (Some(from), Some(to)) => self.slice(from, to),
            _ => Err(SpliceError::Bounds),
        }
    }

    /// Renders the window that `range` stands for.
    ///
    /// The bounds are those that `range` hands out, whatever they are; the
    /// result answers the query for them as [`Multisplice::slice_bounds`] does.
    pub fn slice_range<R: RangeBounds<usize>>(&self, range: R) -> (result: Result<
        Cow<'a, str>,
        SpliceError,
    >)
        ensures
            exists|start: Bound<&usize>, end: Bound<&usize>| #[trigger]
                answers(self@, start_offset(start), end_offset(end, self@.len()), result),
    {
        let start = start_bound_of(&range);
        let end = end_bound_of(&range);
        self.slice_bounds(start, end)
    }
}

impl ToString for Multisplice<'_> {
    /// The whole edited text: the rendering of the window that spans the
    /// source.
    fn to_string(&self) -> (text: String)
        ensures
            text@ == self@.rendered(),
    {
        let len = byte_len(self.source);
        proof {
            // The start and the end of a text are positions of it, so the
            // window that spans the source is never refused.
            vstd::utf8::encode_utf8_valid_utf8(self.source@);
            vstd::utf8::is_char_boundary_start_end_of_seq(self.source.spec_bytes());
        }
        match self.slice(0, len) {
            Ok(Cow::Borrowed(text)) => text.to_owned(),
            Ok(Cow::Owned(text)) => text,
            Err(_) => vstd::pervasive::unreached(),
        }
    }
}

} // verus!
