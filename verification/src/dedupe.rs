//! Deduplication by link: what a store holds after the entries of a feed
//! were offered to it, and what follows from that.
//!
//! The link of an entry is its identity. An entry is stored only where the
//! store holds no entry with its link; an entry that is stored already is
//! never rewritten, whatever the feed now says of it.

use crate::entry::{normalized, EntryView, RawEntryView};
use vstd::prelude::*;

verus! {

/// Whether some entry of `entries` has this link.
pub open spec fn has_link(entries: Seq<EntryView>, link: Seq<char>) -> bool {
    exists|i: int| 0 <= i < entries.len() && (#[trigger] entries[i]).link == link
}

/// The store after one entry was offered to it: unchanged where it holds
/// the entry's link already, else with the entry appended.
pub open spec fn absorbed(store: Seq<EntryView>, entry: EntryView) -> Seq<EntryView> {
    if has_link(store, entry.link) {
        store
    } else {
        store.push(entry)
    }
}

/// The store after a run over `feed`: each raw entry, in feed order, is
/// normalized and offered to the store.
pub open spec fn ingested(store: Seq<EntryView>, feed: Seq<RawEntryView>) -> Seq<EntryView>
    decreases feed.len(),
{
    if feed.len() == 0 {
        store
    } else {
        absorbed(ingested(store, feed.drop_last()), normalized(feed.last()))
    }
}

/// A run over a prefix that is one entry longer offers that entry to what
/// the run over the shorter prefix left.
pub proof fn lemma_ingested_next(store: Seq<EntryView>, feed: Seq<RawEntryView>, i: int)
    requires
        0 <= i < feed.len(),
    ensures
        ingested(store, feed.take(i + 1)) == absorbed(
            ingested(store, feed.take(i)),
            normalized(feed[i]),
        ),
{
    assert(feed.take(i + 1).drop_last() =~= feed.take(i));
}

/// Whether no two entries share a link.
pub open spec fn links_unique(entries: Seq<EntryView>) -> bool {
    forall|i: int, j: int|
        0 <= i < j < entries.len() ==> (#[trigger] entries[i]).link != (#[trigger] entries[j]).link
}

/// Whether some raw entry of `feed` normalizes to an entry with this link.
pub open spec fn feed_has_link(feed: Seq<RawEntryView>, link: Seq<char>) -> bool {
    exists|j: int| 0 <= j < feed.len() && normalized(#[trigger] feed[j]).link == link
}

/// A run never removes, moves or rewrites a stored entry: what the store
/// held before the run is the beginning of what it holds after it, field for
/// field, the posted flag included.
pub proof fn lemma_ingest_keeps_stored(store: Seq<EntryView>, feed: Seq<RawEntryView>)
    ensures
        store.len() <= ingested(store, feed).len(),
        ingested(store, feed).take(store.len() as int) == store,
    decreases feed.len(),
{
    if feed.len() > 0 {
        lemma_ingest_keeps_stored(store, feed.drop_last());
        let earlier = ingested(store, feed.drop_last());
        assert(ingested(store, feed).take(store.len() as int) =~= earlier.take(store.len() as int));
    } else {
        assert(store.take(store.len() as int) =~= store);
    }
}

/// After a run the store holds a link exactly where it held it before or
/// the feed has an entry with it.
pub proof fn lemma_ingest_links(store: Seq<EntryView>, feed: Seq<RawEntryView>, link: Seq<char>)
    ensures
        has_link(ingested(store, feed), link) <==> has_link(store, link) || feed_has_link(
            feed,
            link,
        ),
    decreases feed.len(),
{
    if feed.len() > 0 {
        let shorter = feed.drop_last();
        let earlier = ingested(store, shorter);
        let entry = normalized(feed.last());
        let after = ingested(store, feed);
        lemma_ingest_links(store, shorter, link);
        if feed_has_link(feed, link) {
            let j = choose|j: int| 0 <= j < feed.len() && normalized(#[trigger] feed[j]).link == link;
            if j < shorter.len() {
                assert(normalized(shorter[j]).link == link);
            }
        }
        if feed_has_link(shorter, link) {
            let j = choose|j: int|
                0 <= j < shorter.len() && normalized(#[trigger] shorter[j]).link == link;
            assert(normalized(feed[j]).link == link);
        }
        if has_link(earlier, link) {
            let i = choose|i: int| 0 <= i < earlier.len() && (#[trigger] earlier[i]).link == link;
            assert(after[i].link == link);
        }
        if has_link(after, link) && !has_link(earlier, link) {
            let i = choose|i: int| 0 <= i < after.len() && (#[trigger] after[i]).link == link;
            if i < earlier.len() {
                assert(earlier[i].link == link);
            }
            assert(normalized(feed[feed.len() - 1]).link == link);
        }
        if entry.link == link {
            assert(normalized(feed[feed.len() - 1]).link == link);
            if !has_link(earlier, link) {
                assert(after[earlier.len() as int].link == link);
            }
        }
    }
}

/// A run over a feed whose links the store holds already changes nothing.
pub proof fn lemma_ingest_of_known(store: Seq<EntryView>, feed: Seq<RawEntryView>)
    requires
        forall|j: int| 0 <= j < feed.len() ==> has_link(store, normalized(#[trigger] feed[j]).link),
    ensures
        ingested(store, feed) == store,
    decreases feed.len(),
{
    if feed.len() > 0 {
        let shorter = feed.drop_last();
        assert forall|j: int| 0 <= j < shorter.len() implies has_link(
            store,
            normalized(#[trigger] shorter[j]).link,
        ) by {
            assert(shorter[j] == feed[j]);
        }
        lemma_ingest_of_known(store, shorter);
        assert(feed.last() == feed[feed.len() - 1]);
    }
}

/// Ingestion is idempotent: a second run over the same feed leaves the store
/// as the first run left it.
pub proof fn lemma_ingest_idempotent(store: Seq<EntryView>, feed: Seq<RawEntryView>)
    ensures
        ingested(ingested(store, feed), feed) == ingested(store, feed),
{
    let once = ingested(store, feed);
    assert forall|j: int| 0 <= j < feed.len() implies has_link(
        once,
        normalized(#[trigger] feed[j]).link,
    ) by {
        lemma_ingest_links(store, feed, normalized(feed[j]).link);
    }
    lemma_ingest_of_known(once, feed);
}

/// The link is an identity key: an entry that a run adds shares its link
/// with no entry that the store held before and with no other entry that the
/// run adds, whatever the feed repeats and however the other fields differ.
pub proof fn lemma_ingest_adds_link_once(
    store: Seq<EntryView>,
    feed: Seq<RawEntryView>,
    i: int,
    j: int,
)
    requires
        0 <= i < j < ingested(store, feed).len(),
        store.len() <= j,
    ensures
        ingested(store, feed)[i].link != ingested(store, feed)[j].link,
    decreases feed.len(),
{
    if feed.len() > 0 {
        let earlier = ingested(store, feed.drop_last());
        if j < earlier.len() {
            lemma_ingest_adds_link_once(store, feed.drop_last(), i, j);
        } else {
            assert(earlier[i].link != normalized(feed.last()).link);
        }
    }
}

/// At most one stored entry per link: a run on a store in which no two
/// entries share a link leaves such a store.
pub proof fn lemma_ingest_keeps_links_unique(store: Seq<EntryView>, feed: Seq<RawEntryView>)
    requires
        links_unique(store),
    ensures
        links_unique(ingested(store, feed)),
{
    let after = ingested(store, feed);
    lemma_ingest_keeps_stored(store, feed);
    assert forall|i: int, j: int| 0 <= i < j < after.len() implies (#[trigger] after[i]).link
        != (#[trigger] after[j]).link by {
        if j < store.len() {
            assert(after.take(store.len() as int)[i] == store[i]);
            assert(after.take(store.len() as int)[j] == store[j]);
        } else {
            lemma_ingest_adds_link_once(store, feed, i, j);
        }
    }
}

/// Every entry that a run adds is the normalized form of an entry of the
/// feed whose link the store did not hold, and is not posted.
pub proof fn lemma_ingest_adds_from_feed(store: Seq<EntryView>, feed: Seq<RawEntryView>, i: int)
    requires
        store.len() <= i < ingested(store, feed).len(),
    ensures
        !ingested(store, feed)[i].posted,
        !has_link(store, ingested(store, feed)[i].link),
        exists|j: int| 0 <= j < feed.len() && normalized(#[trigger] feed[j]) == ingested(store, feed)[i],
    decreases feed.len(),
{
    if feed.len() > 0 {
        let shorter = feed.drop_last();
        let earlier = ingested(store, shorter);
        lemma_ingest_keeps_stored(store, shorter);
        if i < earlier.len() {
            lemma_ingest_adds_from_feed(store, shorter, i);
            let j = choose|j: int|
                0 <= j < shorter.len() && normalized(#[trigger] shorter[j]) == earlier[i];
            assert(normalized(feed[j]) == ingested(store, feed)[i]);
        } else {
            assert(normalized(feed[feed.len() - 1]) == ingested(store, feed)[i]);
            let link = normalized(feed.last()).link;
            if has_link(store, link) {
                let k = choose|k: int| 0 <= k < store.len() && (#[trigger] store[k]).link == link;
                assert(earlier.take(store.len() as int)[k] == store[k]);
                assert(earlier[k].link == link);
            }
        }
    }
}

} // verus!
