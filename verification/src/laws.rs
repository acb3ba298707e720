//! What holds of every registry: the facts that the operations rest on, stated
//! over the model and proved.

use crate::error::SpliceError;
use crate::model::apart;
use crate::model::ordered;
use crate::model::Edit;
use crate::model::Registry;
use crate::model::Scan;
use vstd::prelude::*;

verus! {

/// The slot for an offset lies among the stored edits or right behind them.
/// Every edit before it starts at or before the offset, and the edit at the
/// slot, if there is one, starts after it.
pub proof fn lemma_slot_from(registry: Registry, at: int, from: int)
    requires
        0 <= from <= registry.edits.len(),
    ensures
        from <= registry.slot_from(at, from) <= registry.edits.len(),
        forall|i: int|
            from <= i < registry.slot_from(at, from) ==> (#[trigger] registry.edits[i]).start <= at,
        registry.slot_from(at, from) < registry.edits.len() ==> registry.edits[registry.slot_from(
            at,
            from,
        )].start > at,
    decreases registry.edits.len() - from,
{
    if from < registry.edits.len() && registry.edits[from].start <= at {
        lemma_slot_from(registry, at, from + 1);
    }
}

/// Registration keeps a registry well formed: the edits stay in ascending
/// order of their start, and each has a range of the source.
pub proof fn lemma_spliced_well_formed(registry: Registry, edit: Edit)
    requires
        registry.well_formed(),
    ensures
        registry.spliced(edit) matches Ok(next) ==> next.well_formed(),
{
    if let Ok(next) = registry.spliced(edit) {
        let slot = registry.slot(edit.start);
        lemma_slot_from(registry, edit.start, 0);
        assert forall|i: int| 0 <= i < next.edits.len() implies next.admits(
            #[trigger] next.edits[i],
        ) by {
            if i < slot {
                assert(next.edits[i] == registry.edits[i]);
            } else if i > slot {
                assert(next.edits[i] == registry.edits[i - 1]);
            }
        }
        assert(ordered(next.edits));
    }
}

/// A registry without edits renders every window as the source text that the
/// window spans, and the whole of it as the source, unchanged.
pub proof fn lemma_fresh_renders_source(source: Seq<char>, start: int, end: int)
    ensures
        Registry::fresh(source).render(start, end) == Registry::fresh(source).span(start, end),
        Registry::fresh(source).rendered() == source,
{
    let fresh = Registry::fresh(source);
    assert(fresh.bytes().subrange(0, fresh.len()) =~= fresh.bytes());
    vstd::utf8::encode_utf8_decode_utf8(source);
}

/// In a source of ASCII characters a byte offset is an index of characters:
/// the source is as many bytes long as it has characters, every offset up to
/// its length is a position of it, and the text between two offsets is the
/// subrange of the characters between them.
pub proof fn lemma_ascii_source(registry: Registry)
    requires
        vstd::utf8::is_ascii_chars(registry.source),
    ensures
        registry.len() == registry.source.len(),
        forall|at: int| 0 <= at <= registry.source.len() ==> #[trigger] registry.addressable(at),
        forall|from: int, to: int|
            0 <= from <= to <= registry.source.len() ==> #[trigger] registry.span(from, to)
                == registry.source.subrange(from, to),
{
    let source = registry.source;
    let bytes = registry.bytes();
    vstd::utf8::is_ascii_chars_encode_utf8(source);
    vstd::utf8::encode_utf8_valid_utf8(source);
    assert forall|at: int| 0 <= at <= source.len() implies #[trigger] registry.addressable(at) by {
        if at == source.len() {
            vstd::utf8::is_char_boundary_start_end_of_seq(bytes);
        } else {
            vstd::utf8::is_char_boundary_iff_not_is_continuation_byte(bytes, at);
        }
    }
    assert forall|from: int, to: int| 0 <= from <= to <= source.len() implies #[trigger] registry.span(
        from,
        to,
    ) == source.subrange(from, to) by {
        let part = source.subrange(from, to);
        vstd::utf8::is_ascii_chars_encode_utf8(part);
        assert(vstd::utf8::encode_utf8(part) =~= bytes.subrange(from, to));
        vstd::utf8::encode_utf8_decode_utf8(part);
    }
}

/// A window that no stored edit reaches into is scanned without a trace: each
/// edit ends at or before the start of the window or starts at or after its
/// end, so the scan emits nothing and leaves the cursor at the start.
pub proof fn lemma_scan_untouched(registry: Registry, from: int, start: int, end: int)
    requires
        0 <= from,
        forall|i: int|
            0 <= i < registry.edits.len() ==> (#[trigger] registry.edits[i]).end <= start
                || registry.edits[i].start >= end,
    ensures
        registry.scan_from(from, start, end) == (Scan { text: Seq::empty(), cursor: start }),
    decreases registry.edits.len() - from,
{
    if from < registry.edits.len() {
        lemma_scan_untouched(registry, from + 1, start, end);
    }
}

/// A window that no stored edit reaches into renders as the source text that
/// it spans, in one piece of the source unless it ends before it starts.
pub proof fn lemma_untouched_window_verbatim(registry: Registry, start: int, end: int)
    requires
        forall|i: int|
            0 <= i < registry.edits.len() ==> (#[trigger] registry.edits[i]).end <= start
                || registry.edits[i].start >= end,
    ensures
        registry.render(start, end) == registry.span(start, end),
        registry.verbatim(start, end) <==> start <= end,
{
    lemma_scan_untouched(registry, 0, start, end);
}

/// An edit with a range of the source is refused for overlap as soon as one
/// stored edit covers its start.
pub proof fn lemma_overlap_refused(registry: Registry, edit: Edit, i: int)
    requires
        registry.admits(edit),
        0 <= i < registry.edits.len(),
        registry.edits[i].covers(edit.start),
    ensures
        registry.spliced(edit) == Err::<Registry, SpliceError>(SpliceError::Overlap),
{
}

/// To touch is not to overlap: an edit with a range of the source is accepted
/// where every stored edit ends at or before its start, or starts after it. An
/// edit that starts exactly where a stored one ends is such an edit, as far as
/// that stored edit goes.
pub proof fn lemma_touching_accepted(registry: Registry, edit: Edit)
    requires
        registry.admits(edit),
        forall|i: int|
            0 <= i < registry.edits.len() ==> (#[trigger] registry.edits[i]).end <= edit.start
                || edit.start < registry.edits[i].start,
    ensures
        registry.spliced(edit) is Ok,
{
}

/// Where a list holds `edit`, if it does.
spec fn place(list: Seq<Edit>, edit: Edit) -> int {
    choose|i: int| 0 <= i < list.len() && list[i] == edit
}

/// Two lists with the same edits hold the same edits: what stands at a place
/// of the one stands at some place of the other.
proof fn lemma_placed(a: Seq<Edit>, b: Seq<Edit>, i: int)
    requires
        a.to_multiset() == b.to_multiset(),
        0 <= i < b.len(),
    ensures
        0 <= place(a, b[i]) < a.len(),
        a[place(a, b[i])] == b[i],
{
    assert(b.contains(b[i]));
    vstd::seq_lib::to_multiset_contains(a, b[i]);
    vstd::seq_lib::to_multiset_contains(b, b[i]);
}

/// An edit that stands at two places of a list counts at least twice among
/// its edits.
proof fn lemma_twice_counts(list: Seq<Edit>, i: int, j: int)
    requires
        0 <= i < list.len(),
        0 <= j < list.len(),
        i != j,
        list[i] == list[j],
    ensures
        list.to_multiset().count(list[i]) >= 2,
{
    broadcast use vstd::multiset::group_multiset_axioms;

    let rest = list.remove(j);
    let k = if i < j {
        i
    } else {
        i - 1
    };
    assert(rest[k] == list[i]);
    vstd::seq_lib::to_multiset_remove(list, j);
    vstd::seq_lib::to_multiset_contains(rest, list[i]);
}

/// An edit that counts at least twice among the edits of a list stands at two
/// places of it.
proof fn lemma_counted_twice(list: Seq<Edit>, edit: Edit) -> (places: (int, int))
    requires
        list.to_multiset().count(edit) >= 2,
    ensures
        0 <= places.0 < list.len(),
        0 <= places.1 < list.len(),
        places.0 != places.1,
        list[places.0] == edit,
        list[places.1] == edit,
{
    broadcast use vstd::multiset::group_multiset_axioms;

    vstd::seq_lib::to_multiset_contains(list, edit);
    let i = place(list, edit);
    let rest = list.remove(i);
    vstd::seq_lib::to_multiset_remove(list, i);
    vstd::seq_lib::to_multiset_contains(rest, edit);
    let k = place(rest, edit);
    let j = if k < i {
        k
    } else {
        k + 1
    };
    (i, j)
}

/// A reordering of a list of edits that keep clear of one another is such a
/// list too.
proof fn lemma_apart_reordered(a: Seq<Edit>, b: Seq<Edit>)
    requires
        apart(a),
        a.to_multiset() == b.to_multiset(),
    ensures
        apart(b),
{
    assert forall|i: int, j: int| 0 <= i < b.len() && 0 <= j < b.len() && i != j implies !(
    #[trigger] b[j]).covers((#[trigger] b[i]).start) && (b[i].start == b[j].start ==> b[i]
        == b[j]) by {
        if b[i] == b[j] {
            // The edit stands twice in `a` as well, where it keeps clear of itself.
            lemma_twice_counts(b, i, j);
            let (p, q) = lemma_counted_twice(a, b[i]);
            assert(!a[q].covers(a[p].start));
        } else {
            lemma_placed(a, b, i);
            lemma_placed(a, b, j);
            let p = place(a, b[i]);
            let q = place(a, b[j]);
            assert(!a[q].covers(a[p].start));
        }
    }
}

/// Registering, on a source without edits, a list of edits that keep clear of
/// one another accepts them all. The registry that it ends in is well formed,
/// and its edits are the edits of the list.
proof fn lemma_spliced_all_clear(source: Seq<char>, list: Seq<Edit>)
    requires
        apart(list),
        forall|i: int| 0 <= i < list.len() ==> Registry::fresh(source).admits(#[trigger] list[i]),
    ensures
        Registry::fresh(source).spliced_all(list) is Ok,
        Registry::fresh(source).spliced_all(list)->Ok_0.source == source,
        Registry::fresh(source).spliced_all(list)->Ok_0.well_formed(),
        Registry::fresh(source).spliced_all(list)->Ok_0.edits.to_multiset() == list.to_multiset(),
    decreases list.len(),
{
    let fresh = Registry::fresh(source);
    if list.len() == 0 {
        assert(fresh.edits =~= list);
    } else {
        let front = list.drop_last();
        let edit = list.last();
        assert(apart(front));
        lemma_spliced_all_clear(source, front);
        let registry = fresh.spliced_all(front)->Ok_0;
        assert(registry.admits(edit));
        assert forall|i: int| 0 <= i < registry.edits.len() implies !(
        #[trigger] registry.edits[i]).covers(edit.start) by {
            // A stored edit is an earlier edit of the list.
            lemma_placed(front, registry.edits, i);
            let j = place(front, registry.edits[i]);
            assert(!list[j].covers(list[list.len() - 1].start));
        }
        lemma_spliced_well_formed(registry, edit);
        lemma_slot_from(registry, edit.start, 0);
        vstd::seq_lib::to_multiset_insert(registry.edits, registry.slot(edit.start), edit);
        assert(front.push(edit) =~= list);
        vstd::seq_lib::to_multiset_build(front, edit);
    }
}

/// Two lists in ascending order that hold the same edits, no two different
/// ones with the same start, are the same list.
proof fn lemma_ordered_unique(s: Seq<Edit>, t: Seq<Edit>)
    requires
        ordered(s),
        ordered(t),
        s.to_multiset() == t.to_multiset(),
        forall|i: int, j: int|
            0 <= i < s.len() && 0 <= j < s.len() && s[i].start == s[j].start ==> s[i] == s[j],
    ensures
        s == t,
    decreases s.len(),
{
    vstd::seq_lib::to_multiset_len(s);
    vstd::seq_lib::to_multiset_len(t);
    if s.len() > 0 {
        let n = s.len() - 1;
        // The last edit of each list stands in the other, so neither starts
        // before the other: they start together, and are one edit.
        lemma_placed(t, s, n);
        lemma_placed(s, t, n);
        assert(s[n].start == t[n].start);
        assert(s[n] == t[n]);
        assert(s.remove(n) =~= s.drop_last());
        assert(t.remove(n) =~= t.drop_last());
        vstd::seq_lib::to_multiset_remove(s, n);
        vstd::seq_lib::to_multiset_remove(t, n);
        lemma_ordered_unique(s.drop_last(), t.drop_last());
        assert(s =~= s.drop_last().push(s[n]));
        assert(t =~= t.drop_last().push(t[n]));
    } else {
        assert(s =~= t);
    }
}

/// Edits that keep clear of one another can be registered on a source in any
/// order. Every order is accepted, and every order ends in the same registry,
/// which therefore renders every window alike. That registry is well formed,
/// and its edits are those of the list.
pub proof fn lemma_order_independent(source: Seq<char>, a: Seq<Edit>, b: Seq<Edit>)
    requires
        apart(a),
        forall|i: int| 0 <= i < a.len() ==> Registry::fresh(source).admits(#[trigger] a[i]),
        a.to_multiset() == b.to_multiset(),
    ensures
        Registry::fresh(source).spliced_all(a) is Ok,
        Registry::fresh(source).spliced_all(b) == Registry::fresh(source).spliced_all(a),
        Registry::fresh(source).spliced_all(a)->Ok_0.well_formed(),
        Registry::fresh(source).spliced_all(a)->Ok_0.edits.to_multiset() == a.to_multiset(),
        forall|start: int, end: int|
            Registry::fresh(source).spliced_all(b)->Ok_0.render(start, end) == Registry::fresh(
                source,
            ).spliced_all(a)->Ok_0.render(start, end),
{
    let fresh = Registry::fresh(source);
    lemma_apart_reordered(a, b);
    assert forall|i: int| 0 <= i < b.len() implies fresh.admits(#[trigger] b[i]) by {
        lemma_placed(a, b, i);
    }
    lemma_spliced_all_clear(source, a);
    lemma_spliced_all_clear(source, b);
    let stored = fresh.spliced_all(a)->Ok_0.edits;
    lemma_apart_reordered(a, stored);
    lemma_ordered_unique(stored, fresh.spliced_all(b)->Ok_0.edits);
}

/// Registering edits in the order of their start stores them as they come:
/// the registry of a list in ascending order whose edits keep clear of one
/// another holds that list.
pub proof fn lemma_ordered_stored_as_is(source: Seq<char>, list: Seq<Edit>)
    requires
        apart(list),
        ordered(list),
        forall|i: int| 0 <= i < list.len() ==> Registry::fresh(source).admits(#[trigger] list[i]),
    ensures
        Registry::fresh(source).spliced_all(list) == Ok::<Registry, SpliceError>(
            (Registry { source, edits: list }),
        ),
{
    lemma_spliced_all_clear(source, list);
    let stored = Registry::fresh(source).spliced_all(list)->Ok_0.edits;
    lemma_apart_reordered(list, stored);
    lemma_ordered_unique(stored, list);
}

} // verus!
