//! The publication workflow: which stored entries are not posted yet, and
//! the batch transition of entries to posted.

use crate::entry::{entry_views, Entry, EntryView};
use crate::store::{
    admits, admitted_by, changed_by, link_set, marked, marked_entry, modified_count, selected,
    Filter, FilterView, Store,
};
use vstd::prelude::*;

verus! {

/// The entries that are not posted, in store order.
pub open spec fn unposted(entries: Seq<EntryView>) -> Seq<EntryView> {
    selected(entries, FilterView::Unposted)
}

/// The store after the entries whose link is in `links` were marked as
/// posted.
pub open spec fn posted_batch(entries: Seq<EntryView>, links: Set<Seq<char>>) -> Seq<EntryView> {
    marked(entries, FilterView::LinkIn(links))
}

/// How many entries marking `links` changes: those with a link in `links`
/// that are not posted yet.
pub open spec fn batch_count(entries: Seq<EntryView>, links: Set<Seq<char>>) -> nat {
    modified_count(entries, FilterView::LinkIn(links))
}

/// Filtering by a predicate that holds of every entry keeps everything.
pub proof fn lemma_filter_keeps_all(entries: Seq<EntryView>, pred: spec_fn(EntryView) -> bool)
    requires
        forall|i: int| 0 <= i < entries.len() ==> pred(#[trigger] entries[i]),
    ensures
        entries.filter(pred) == entries,
    decreases entries.len(),
{
    reveal(Seq::filter);
    if entries.len() > 0 {
        lemma_filter_keeps_all(entries.drop_last(), pred);
        assert(entries.drop_last().push(entries.last()) =~= entries);
    }
}

/// Filtering by a predicate that holds of no entry keeps nothing.
pub proof fn lemma_filter_keeps_none(entries: Seq<EntryView>, pred: spec_fn(EntryView) -> bool)
    requires
        forall|i: int| 0 <= i < entries.len() ==> !pred(#[trigger] entries[i]),
    ensures
        entries.filter(pred).len() == 0,
    decreases entries.len(),
{
    reveal(Seq::filter);
    if entries.len() > 0 {
        lemma_filter_keeps_none(entries.drop_last(), pred);
    }
}

/// All stored entries, in store order.
pub fn list_all(store: &Store) -> (entries: Vec<Entry>)
    ensures
        entry_views(entries@) == store@,
{
    proof {
        lemma_filter_keeps_all(store@, admitted_by(FilterView::All));
    }
    store.find_all(&Filter::All)
}

/// The stored entries that are not posted: exactly those, in store order.
pub fn list_unposted(store: &Store) -> (entries: Vec<Entry>)
    ensures
        entry_views(entries@) == unposted(store@),
{
    store.find_all(&Filter::Unposted)
}

/// Marks as posted every stored entry whose link is one of `links`, in one
/// update of the store, and returns how many entries changed. A link that
/// the store does not hold is ignored, and an entry that was posted already
/// does not count. Any list of links is accepted, the empty one too.
pub fn mark_posted(store: &mut Store, links: Vec<String>) -> (count: usize)
    ensures
        final(store)@ == posted_batch(old(store)@, link_set(links@)),
        count == batch_count(old(store)@, link_set(links@)),
{
    store.update_many(&Filter::LinkIn(links))
}

/// The unposted list holds an entry exactly where the store holds it and it
/// is not posted.
pub proof fn lemma_unposted_exact(store: Seq<EntryView>, entry: EntryView)
    ensures
        unposted(store).contains(entry) <==> store.contains(entry) && !entry.posted,
{
    let pred = admitted_by(FilterView::Unposted);
    if unposted(store).contains(entry) {
        let i = choose|i: int| 0 <= i < unposted(store).len() && unposted(store)[i] == entry;
        store.lemma_filter_pred(pred, i);
        store.lemma_filter_contains_rev(pred, entry);
    }
    if store.contains(entry) && !entry.posted {
        let i = choose|i: int| 0 <= i < store.len() && store[i] == entry;
        assert(pred(store[i]));
        store.lemma_filter_contains(pred, i);
    }
}

/// Marking changes nothing but the posted flag, and that only from not
/// posted to posted: the store keeps its length and order, every entry keeps
/// its texts, an entry with a link of the batch is posted afterwards, and
/// any other entry is as it was.
pub proof fn lemma_marking_changes_posted_only(
    store: Seq<EntryView>,
    links: Set<Seq<char>>,
    i: int,
)
    requires
        0 <= i < store.len(),
    ensures
        posted_batch(store, links).len() == store.len(),
        posted_batch(store, links)[i] == (EntryView {
            posted: store[i].posted || links.contains(store[i].link),
            ..store[i]
        }),
{
}

/// An entry whose link was in a marked batch is absent from the unposted
/// list afterwards.
pub proof fn lemma_marked_leave_unposted(
    store: Seq<EntryView>,
    links: Set<Seq<char>>,
    entry: EntryView,
)
    requires
        unposted(posted_batch(store, links)).contains(entry),
    ensures
        !links.contains(entry.link),
        unposted(store).contains(entry),
{
    let after = posted_batch(store, links);
    lemma_unposted_exact(after, entry);
    let i = choose|i: int| 0 <= i < after.len() && after[i] == entry;
    assert(after[i] == marked_entry(store[i], FilterView::LinkIn(links)));
    assert(store[i] == entry);
    lemma_unposted_exact(store, entry);
}

/// The count that marking returns is the number of entries that leave the
/// unposted list.
pub proof fn lemma_batch_count_leaves(store: Seq<EntryView>, links: Set<Seq<char>>)
    ensures
        batch_count(store, links) + unposted(posted_batch(store, links)).len() == unposted(
            store,
        ).len(),
    decreases store.len(),
{
    reveal(Seq::filter);
    if store.len() > 0 {
        lemma_batch_count_leaves(store.drop_last(), links);
        let filter = FilterView::LinkIn(links);
        assert(posted_batch(store, links).drop_last() =~= posted_batch(store.drop_last(), links));
        assert(posted_batch(store, links).last() == marked_entry(store.last(), filter));
        assert(admits(filter, store.last()) == links.contains(store.last().link));
    } else {
        assert(posted_batch(store, links) =~= store);
    }
}

/// An entry becomes posted once: marking the same batch again changes no
/// entry and counts none.
pub proof fn lemma_marking_again(store: Seq<EntryView>, links: Set<Seq<char>>)
    ensures
        posted_batch(posted_batch(store, links), links) == posted_batch(store, links),
        batch_count(posted_batch(store, links), links) == 0,
{
    let once = posted_batch(store, links);
    assert(posted_batch(once, links) =~= once);
    lemma_filter_keeps_none(once, changed_by(FilterView::LinkIn(links)));
}

/// Links that the store does not hold are ignored: marking a batch none of
/// whose links is stored changes no entry and counts none.
pub proof fn lemma_marking_unknown(store: Seq<EntryView>, links: Set<Seq<char>>)
    requires
        forall|i: int| 0 <= i < store.len() ==> !links.contains((#[trigger] store[i]).link),
    ensures
        posted_batch(store, links) == store,
        batch_count(store, links) == 0,
{
    assert(posted_batch(store, links) =~= store);
    lemma_filter_keeps_none(store, changed_by(FilterView::LinkIn(links)));
}

} // verus!
