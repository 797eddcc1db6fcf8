//! The order of a directory listing.
//!
//! Every backend lists a directory sorted by name, so that the same directory
//! lists the same way whichever backend enumerated it.

use vstd::prelude::*;
use crate::entry::{Entry, EntryView};
use crate::text;

verus! {

/// The views of a sequence of entries.
pub open spec fn views(entries: Seq<Entry>) -> Seq<EntryView> {
    entries.map_values(|e: Entry| e@)
}

/// How many entries at the front of `sorted` stay before `e`: those that do not
/// sort after it.
pub open spec fn place(sorted: Seq<EntryView>, e: EntryView) -> nat
    decreases sorted.len(),
{
    if sorted.len() == 0 || text::text_before(e.name, sorted[0].name) {
        0
    } else {
        1 + place(sorted.drop_first(), e)
    }
}

/// `entries` by name; entries of the same name keep their order.
pub open spec fn by_name(entries: Seq<EntryView>) -> Seq<EntryView>
    decreases entries.len(),
{
    if entries.len() == 0 {
        Seq::empty()
    } else {
        let sorted = by_name(entries.drop_last());
        sorted.insert(place(sorted, entries.last()) as int, entries.last())
    }
}

/// Whether no entry sorts before one that precedes it.
pub open spec fn is_sorted(entries: Seq<EntryView>) -> bool {
    forall|i: int, j: int|
        0 <= i < j < entries.len() ==> !text::text_before(
            (#[trigger] entries[j]).name,
            (#[trigger] entries[i]).name,
        )
}

/// Where an entry goes: after everything that does not sort after it.
proof fn place_splits(sorted: Seq<EntryView>, e: EntryView)
    ensures
        place(sorted, e) <= sorted.len(),
        forall|i: int|
            0 <= i < place(sorted, e) ==> !text::text_before(e.name, (#[trigger] sorted[i]).name),
        place(sorted, e) < sorted.len() ==> text::text_before(
            e.name,
            sorted[place(sorted, e) as int].name,
        ),
    decreases sorted.len(),
{
    if sorted.len() > 0 && !text::text_before(e.name, sorted[0].name) {
        let rest = sorted.drop_first();
        place_splits(rest, e);
        assert forall|i: int| 0 <= i < place(sorted, e) implies !text::text_before(
            e.name,
            (#[trigger] sorted[i]).name,
        ) by {
            if i > 0 {
                assert(sorted[i] == rest[i - 1]);
            }
        }
        if place(sorted, e) < sorted.len() {
            assert(sorted[place(sorted, e) as int] == rest[place(rest, e) as int]);
        }
    }
}

/// A position that splits a sequence as [`place`] does is [`place`].
proof fn place_is_the_split(sorted: Seq<EntryView>, e: EntryView, at: int)
    requires
        0 <= at <= sorted.len(),
        forall|i: int| 0 <= i < at ==> !text::text_before(e.name, (#[trigger] sorted[i]).name),
        at < sorted.len() ==> text::text_before(e.name, sorted[at].name),
    ensures
        place(sorted, e) == at,
{
    place_splits(sorted, e);
    let p = place(sorted, e) as int;
    if p < at {
        assert(!text::text_before(e.name, sorted[p].name));
    }
    if at < p {
        assert(!text::text_before(e.name, sorted[at].name));
    }
}

/// In a sorted sequence, whatever follows an entry that sorts after `e` sorts
/// after `e` too.
proof fn after_stays_after(sorted: Seq<EntryView>, e: EntryView, i: int, j: int)
    requires
        is_sorted(sorted),
        0 <= i <= j < sorted.len(),
        text::text_before(e.name, sorted[i].name),
    ensures
        text::text_before(e.name, sorted[j].name),
{
    if i < j {
        assert(!text::text_before(sorted[j].name, sorted[i].name));
        text::order_is_total(sorted[i].name, sorted[j].name);
        if sorted[i].name != sorted[j].name {
            text::order_is_transitive(e.name, sorted[i].name, sorted[j].name);
        }
    }
}

/// Inserting an entry where it belongs keeps a sequence sorted.
proof fn inserting_keeps_order(sorted: Seq<EntryView>, e: EntryView)
    requires
        is_sorted(sorted),
    ensures
        is_sorted(sorted.insert(place(sorted, e) as int, e)),
{
    place_splits(sorted, e);
    let p = place(sorted, e) as int;
    let longer = sorted.insert(p, e);
    assert forall|i: int, j: int| 0 <= i < j < longer.len() implies !text::text_before(
        (#[trigger] longer[j]).name,
        (#[trigger] longer[i]).name,
    ) by {
        let oi = if i > p { i - 1 } else { i };
        let oj = if j > p { j - 1 } else { j };
        if i != p {
            assert(longer[i] == sorted[oi]);
        }
        if j != p {
            assert(longer[j] == sorted[oj]);
        }
        if i == p {
            after_stays_after(sorted, e, p, oj);
            if text::text_before(sorted[oj].name, e.name) {
                text::order_is_transitive(e.name, sorted[oj].name, e.name);
                text::order_is_irreflexive(e.name);
            }
        }
    }
}

/// A listing is sorted, and it lists exactly what was enumerated.
pub proof fn listings_are_sorted_and_complete(entries: Seq<EntryView>)
    ensures
        is_sorted(by_name(entries)),
        by_name(entries).to_multiset() == entries.to_multiset(),
        by_name(entries).len() == entries.len(),
    decreases entries.len(),
{
    broadcast use vstd::seq_lib::group_to_multiset_ensures;

    if entries.len() > 0 {
        let init = entries.drop_last();
        let e = entries.last();
        listings_are_sorted_and_complete(init);
        inserting_keeps_order(by_name(init), e);
        place_splits(by_name(init), e);
        assert(init.push(e) =~= entries);
        vstd::seq_lib::to_multiset_insert(by_name(init), place(by_name(init), e) as int, e);
    } else {
        assert(by_name(entries) =~= entries);
    }
}

/// Puts one more entry where it belongs in a sorted listing.
fn insert_sorted(sorted: &mut Vec<Entry>, e: Entry)
    requires
        is_sorted(views(old(sorted)@)),
    ensures
        views(final(sorted)@) == views(old(sorted)@).insert(
            place(views(old(sorted)@), e@) as int,
            e@,
        ),
{
    let ghost before = views(sorted@);
    let mut low: usize = 0;
    let mut high: usize = sorted.len();
    while low < high
        invariant
            low <= high <= sorted@.len(),
            before == views(sorted@),
            is_sorted(before),
            forall|i: int| 0 <= i < low ==> !text::text_before(e@.name, (#[trigger] before[i]).name),
            high < before.len() ==> text::text_before(e@.name, before[high as int].name),
        decreases high - low,
    {
        let middle: usize = low + (high - low) / 2;
        if text::sorts_before(&e.name, &sorted[middle].name) {
            high = middle;
        } else {
            proof {
                assert forall|i: int| 0 <= i < middle + 1 implies !text::text_before(
                    e@.name,
                    (#[trigger] before[i]).name,
                ) by {
                    if text::text_before(e@.name, before[i].name) {
                        after_stays_after(before, e@, i, middle as int);
                    }
                }
            }
            low = middle + 1;
        }
    }
    proof {
        place_is_the_split(before, e@, low as int);
    }
    sorted.insert(low, e);
    assert(views(sorted@) =~= before.insert(low as int, e@));
}

/// Sorts a listing by name.
pub fn sort_entries(entries: Vec<Entry>) -> (r: Vec<Entry>)
    ensures
        views(r@) == by_name(views(entries@)),
{
    let ghost all = views(entries@);
    let mut out: Vec<Entry> = Vec::new();
    assert(views(out@) =~= by_name(all.take(0)));
    for e in it: entries
        invariant
            all == views(it.seq()),
            views(out@) == by_name(all.take(it.index())),
    {
        proof {
            assert(all.take(it.index() + 1).drop_last() =~= all.take(it.index()));
            assert(all.take(it.index() + 1).last() == e@);
            listings_are_sorted_and_complete(all.take(it.index()));
        }
        insert_sorted(&mut out, e);
    }
    assert(all.take(all.len() as int) =~= all);
    out
}

/// Sorting is stable: of the entries with any one name, each keeps its place among
/// them.
pub proof fn entries_of_one_name_keep_their_order(entries: Seq<EntryView>, name: Seq<char>)
    ensures
        by_name(entries).filter(|e: EntryView| e.name == name) == entries.filter(
            |e: EntryView| e.name == name,
        ),
    decreases entries.len(),
{
    let same = |e: EntryView| e.name == name;
    reveal(Seq::filter);
    if entries.len() > 0 {
        let init = entries.drop_last();
        let e = entries.last();
        let sorted = by_name(init);
        entries_of_one_name_keep_their_order(init, name);
        listings_are_sorted_and_complete(init);
        place_splits(sorted, e);
        let p = place(sorted, e) as int;
        let (front, back) = (sorted.take(p), sorted.skip(p));
        assert(sorted =~= front + back);
        assert(sorted.insert(p, e) =~= front + seq![e] + back);
        Seq::filter_distributes_over_add(front, back, same);
        Seq::filter_distributes_over_add(front + seq![e], back, same);
        Seq::filter_distributes_over_add(front, seq![e], same);
        if e.name == name {
            assert forall|i: int| 0 <= i < back.len() implies !same(#[trigger] back[i]) by {
                assert(back[i] == sorted[p + i]);
                after_stays_after(sorted, e, p, p + i);
                text::order_is_irreflexive(e.name);
            }
            nothing_is_kept(back, name);
        }
        assert(seq![e].drop_last() =~= Seq::<EntryView>::empty());
        assert(seq![e].drop_last().filter(same) =~= Seq::<EntryView>::empty());
        if e.name == name {
            assert(seq![e].filter(same) =~= seq![e]);
        } else {
            assert(seq![e].filter(same) =~= Seq::<EntryView>::empty());
        }
        assert(by_name(entries).filter(same) =~= entries.filter(same));
    }
}

proof fn nothing_is_kept(entries: Seq<EntryView>, name: Seq<char>)
    requires
        forall|i: int| 0 <= i < entries.len() ==> (#[trigger] entries[i]).name != name,
    ensures
        entries.filter(|e: EntryView| e.name == name).len() == 0,
    decreases entries.len(),
{
    reveal(Seq::filter);
    if entries.len() > 0 {
        nothing_is_kept(entries.drop_last(), name);
    }
}

/// Sorting a listing gives the same entries, in the order of their names.
pub proof fn sorting_only_reorders(entries: Vec<Entry>, r: Vec<Entry>)
    requires
        call_ensures(sort_entries, (entries,), r),
    ensures
        views(r@).to_multiset() == views(entries@).to_multiset(),
        r@.len() == entries@.len(),
        forall|i: int, j: int|
            0 <= i < j < r@.len() ==> !text::text_before(
                (#[trigger] r@[j]).name@,
                (#[trigger] r@[i]).name@,
            ),
{
    listings_are_sorted_and_complete(views(entries@));
    let out = views(r@);
    assert forall|i: int, j: int| 0 <= i < j < r@.len() implies !text::text_before(
        (#[trigger] r@[j]).name@,
        (#[trigger] r@[i]).name@,
    ) by {
        assert(out[i].name == r@[i].name@ && out[j].name == r@[j].name@);
    }
}

} // verus!
