//! The mathematical model: what a registry of edits is, when it accepts a new
//! edit, and what text a window over it renders.

use crate::error::SpliceError;
use vstd::prelude::*;
use vstd::utf8::decode_utf8;
use vstd::utf8::encode_utf8;
use vstd::utf8::is_char_boundary;

verus! {

/// One replacement: the bytes `[start, end)` of the source give way to `text`.
pub struct Edit {
    pub start: int,
    pub end: int,
    pub text: Seq<char>,
}

impl Edit {
    /// Whether the byte offset `at` lies inside the replaced range.
    pub open spec fn covers(self, at: int) -> bool {
        self.start <= at < self.end
    }
}

/// Whether the edits of `list` keep clear of one another: none starts inside
/// the range of another, and two that start at the same offset are one and the
/// same edit.
pub open spec fn apart(list: Seq<Edit>) -> bool {
    forall|i: int, j: int|
        0 <= i < list.len() && 0 <= j < list.len() && i != j ==> {
            &&& !(#[trigger] list[j]).covers((#[trigger] list[i]).start)
            &&& list[i].start == list[j].start ==> list[i] == list[j]
        }
}

/// Whether the edits of `list` are in ascending order of their start.
pub open spec fn ordered(list: Seq<Edit>) -> bool {
    forall|i: int, j: int| 0 <= i <= j < list.len() ==> list[i].start <= list[j].start
}

/// A source text together with the edits registered against it, in the order in
/// which they are kept.
pub struct Registry {
    pub source: Seq<char>,
    pub edits: Seq<Edit>,
}

/// What a scan over the edits has produced: the text emitted so far and the
/// source offset up to which the window has been consumed.
pub struct Scan {
    pub text: Seq<char>,
    pub cursor: int,
}

impl Registry {
    /// The registry of a source that has no edits yet.
    pub open spec fn fresh(source: Seq<char>) -> Registry {
        Registry { source, edits: Seq::empty() }
    }

    /// The source as it lies in memory: its UTF-8 encoding. All offsets index
    /// this sequence.
    pub open spec fn bytes(self) -> Seq<u8> {
        encode_utf8(self.source)
    }

    /// The length of the source in bytes.
    pub open spec fn len(self) -> int {
        self.bytes().len() as int
    }

    /// Whether `at` is a position of the source at which the text can be cut:
    /// within the text and not inside the encoding of a character.
    pub open spec fn addressable(self, at: int) -> bool {
        0 <= at <= self.len() && is_char_boundary(self.bytes(), at)
    }

    /// The source text between the byte offsets `from` and `to`; empty when
    /// `to` lies before `from`.
    pub open spec fn span(self, from: int, to: int) -> Seq<char> {
        if from <= to {
            decode_utf8(self.bytes().subrange(from, to))
        } else {
            Seq::empty()
        }
    }

    /// Whether the range of `edit` is one that the source has.
    pub open spec fn admits(self, edit: Edit) -> bool {
        edit.start <= edit.end && self.addressable(edit.start) && self.addressable(edit.end)
    }

    /// Whether some stored edit covers the offset `at`.
    pub open spec fn conflicts(self, at: int) -> bool {
        exists|i: int| 0 <= i < self.edits.len() && #[trigger] self.edits[i].covers(at)
    }

    /// The index of the first stored edit, from `from` on, that starts after
    /// `at`; the number of stored edits when there is none.
    pub open spec fn slot_from(self, at: int, from: int) -> int
        decreases self.edits.len() - from,
    {
        if from < 0 || from >= self.edits.len() {
            self.edits.len() as int
        } else if self.edits[from].start > at {
            from
        } else {
            self.slot_from(at, from + 1)
        }
    }

    /// Where an edit that starts at `at` is inserted: before the first stored
    /// edit that starts after it, behind every edit that starts at or before it.
    pub open spec fn slot(self, at: int) -> int {
        self.slot_from(at, 0)
    }

    /// The outcome of registering `edit`: the registry that holds it, or the
    /// reason for which it is refused. A range that the source does not have is
    /// refused before the stored edits are looked at.
    pub open spec fn spliced(self, edit: Edit) -> Result<Registry, SpliceError> {
        if !self.admits(edit) {
            Err(SpliceError::Bounds)
        } else if self.conflicts(edit.start) {
            Err(SpliceError::Overlap)
        } else {
            Ok(Registry { source: self.source, edits: self.edits.insert(self.slot(edit.start), edit) })
        }
    }

    /// The outcome of registering the edits of `list` one after the other, the
    /// first one first. The first refusal ends it.
    pub open spec fn spliced_all(self, list: Seq<Edit>) -> Result<Registry, SpliceError>
        decreases list.len(),
    {
        if list.len() == 0 {
            Ok(self)
        } else {
            match self.spliced_all(list.drop_last()) {
                Ok(registry) => registry.spliced(list.last()),
                Err(error) => Err(error),
            }
        }
    }

    /// The invariant of a registry: every stored edit has a range of the
    /// source, and the edits are in ascending order of their start.
    pub open spec fn well_formed(self) -> bool {
        &&& ordered(self.edits)
        &&& forall|i: int| 0 <= i < self.edits.len() ==> self.admits(#[trigger] self.edits[i])
    }

    /// The scan of the stored edits from index `from` on, for a window that
    /// ends at `end` and has been consumed up to `last`.
    ///
    /// An edit that ends at or before `last` is passed over. The first edit
    /// that starts at or after `end` stops the scan. Any other edit emits the
    /// source between `last` and its start, if there is any, and then its whole
    /// replacement, and moves the cursor to its end.
    pub open spec fn scan_from(self, from: int, last: int, end: int) -> Scan
        decreases self.edits.len() - from,
    {
        if from < 0 || from >= self.edits.len() {
            Scan { text: Seq::empty(), cursor: last }
        } else {
            let edit = self.edits[from];
            if edit.end <= last {
                self.scan_from(from + 1, last, end)
            } else if edit.start >= end {
                Scan { text: Seq::empty(), cursor: last }
            } else {
                let rest = self.scan_from(from + 1, edit.end, end);
                Scan { text: self.span(last, edit.start) + edit.text + rest.text, cursor: rest.cursor }
            }
        }
    }

    /// The scan of all stored edits for the window `[start, end)`.
    pub open spec fn scan(self, start: int, end: int) -> Scan {
        self.scan_from(0, start, end)
    }

    /// Whether `[start, end)` is a window that can be rendered: both offsets
    /// are positions of the source.
    pub open spec fn window(self, start: int, end: int) -> bool {
        self.addressable(start) && self.addressable(end)
    }

    /// The edited text for the window `[start, end)` of the source: what the
    /// scan emits, followed by the source from the cursor to `end` unless the
    /// window ends inside the last edit applied.
    pub open spec fn render(self, start: int, end: int) -> Seq<char> {
        let scan = self.scan(start, end);
        scan.text + self.span(scan.cursor, end)
    }

    /// Whether the rendering of `[start, end)` is one piece of the source:
    /// the scan emitted nothing and the window does not end before the cursor.
    pub open spec fn verbatim(self, start: int, end: int) -> bool {
        let scan = self.scan(start, end);
        scan.text.len() == 0 && scan.cursor <= end
    }

    /// The whole edited text.
    pub open spec fn rendered(self) -> Seq<char> {
        self.render(0, self.len())
    }
}

} // verus!
