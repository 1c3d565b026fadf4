//! The deduplicating ingestor: one ingestion run against the store of this
//! crate, and why a run that is driven against any store that answers
//! truthfully leaves that store as deduplication says.

use crate::dedupe::{has_link, ingested, lemma_ingested_next};
use crate::entry::{normalized_all, raw_views, EntryView, RawEntry, RawEntryView};
use crate::error::{FetchError, IngestError, IngestErrorView};
use crate::feed::{feed_document, parse_feed, too_deep, MAX_NESTING};
use crate::nesting::nesting_bound;
use crate::run::{
    begin_with, step, stepped, turned_to, IngestAction, IngestActionView, IngestStateView,
    StoreReply, StoreReplyView,
};
use crate::store::{admitted_by, first_selected, FilterView, Store};
use vstd::prelude::*;

verus! {

/// A lookup by link finds an entry exactly where the store holds the link.
pub proof fn lemma_lookup_finds_link(store: Seq<EntryView>, link: Seq<char>)
    ensures
        first_selected(store, FilterView::LinkIs(link)) is Some <==> has_link(store, link),
{
    let filter = FilterView::LinkIs(link);
    let pred = admitted_by(filter);
    let hits = store.filter(pred);
    if has_link(store, link) {
        let i = choose|i: int| 0 <= i < store.len() && (#[trigger] store[i]).link == link;
        assert(pred(store[i]));
        store.lemma_filter_contains(pred, i);
        assert(hits.len() > 0);
    }
    if hits.len() > 0 {
        store.lemma_filter_pred(pred, 0);
        assert(hits.contains(hits[0]));
        store.lemma_filter_contains_rev(pred, hits[0]);
        let i = choose|i: int| 0 <= i < store.len() && store[i] == hits[0];
        assert(store[i].link == link);
    }
}

/// What holds between the steps of a run over `feed` that started on the
/// store `before`: the store is what a run over the entries already dealt
/// with leaves, and the outstanding request is the one for the current entry.
pub open spec fn on_course(
    state: IngestStateView,
    action: IngestActionView,
    store: Seq<EntryView>,
    before: Seq<EntryView>,
    feed: Seq<RawEntryView>,
) -> bool {
    match state {
        IngestStateView::Checking { entries, at } => {
            &&& entries == normalized_all(feed)
            &&& at < feed.len()
            &&& action == IngestActionView::FindOne(FilterView::LinkIs(entries[at as int].link))
            &&& store == ingested(before, feed.take(at as int))
        },
        IngestStateView::Inserting { entries, at } => {
            &&& entries == normalized_all(feed)
            &&& at < feed.len()
            &&& action == IngestActionView::Insert(entries[at as int])
            &&& store == ingested(before, feed.take(at as int))
            &&& !has_link(store, entries[at as int].link)
        },
        IngestStateView::Finished => {
            &&& action == IngestActionView::Finish(Ok(()))
            &&& store == ingested(before, feed)
        },
    }
}

/// The number of steps that a run may still take.
pub open spec fn steps_left(state: IngestStateView) -> int {
    match state {
        IngestStateView::Checking { entries, at } => 2 * (entries.len() - at) + 2,
        IngestStateView::Inserting { entries, at } => 2 * (entries.len() - at) + 1,
        IngestStateView::Finished => 0,
    }
}

/// A run that turns to the entry at `at`, with the store as a run over the
/// first `at` entries leaves it, is on course.
pub proof fn lemma_turned_on_course(
    store: Seq<EntryView>,
    before: Seq<EntryView>,
    feed: Seq<RawEntryView>,
    at: nat,
)
    requires
        at <= feed.len(),
        store == ingested(before, feed.take(at as int)),
    ensures
        on_course(
            turned_to(normalized_all(feed), at).0,
            turned_to(normalized_all(feed), at).1,
            store,
            before,
            feed,
        ),
{
    if at == feed.len() {
        assert(feed.take(at as int) =~= feed);
    }
}

/// The store after the request `action` was carried out on it.
pub open spec fn carried_out(action: IngestActionView, store: Seq<EntryView>) -> Seq<EntryView> {
    match action {
        IngestActionView::Insert(entry) => store.push(entry),
        _ => store,
    }
}

/// Whether `reply` is what a store with the entries `store` answers to the
/// request `action` when it carries it out: to a find, some entry exactly
/// where the filter selects one; to an insert, that it is done.
pub open spec fn answers(
    reply: StoreReplyView,
    action: IngestActionView,
    store: Seq<EntryView>,
) -> bool {
    match action {
        IngestActionView::FindOne(filter) => {
            &&& reply matches StoreReplyView::Found(found)
            &&& found is Some <==> first_selected(store, filter) is Some
        },
        IngestActionView::Insert(_) => reply == StoreReplyView::Inserted,
        IngestActionView::Finish(_) => false,
    }
}

/// A run that is on course and is stepped with the store's answer to its
/// request is on course again, on the store as the request left it, and is
/// nearer to its end. This holds of any store that answers as [`answers`]
/// says, so whoever drives the run to its end against such a store leaves
/// the store as [`ingested`] says.
pub proof fn lemma_step_stays_on_course(
    state: IngestStateView,
    action: IngestActionView,
    store: Seq<EntryView>,
    before: Seq<EntryView>,
    feed: Seq<RawEntryView>,
    reply: StoreReplyView,
)
    requires
        on_course(state, action, store, before, feed),
        answers(reply, action, store),
    ensures
        stepped(state, reply) matches Some((then, next)) && {
            &&& on_course(then, next, carried_out(action, store), before, feed)
            &&& steps_left(then) < steps_left(state)
        },
{
    match state {
        IngestStateView::Checking { entries, at } => {
            lemma_lookup_finds_link(store, entries[at as int].link);
            lemma_ingested_next(before, feed, at as int);
            if reply->Found_0 is Some {
                lemma_turned_on_course(store, before, feed, at + 1);
            }
        },
        IngestStateView::Inserting { entries, at } => {
            lemma_ingested_next(before, feed, at as int);
            lemma_turned_on_course(carried_out(action, store), before, feed, at + 1);
        },
        IngestStateView::Finished => {},
    }
}

/// A failure of the store ends a run that is under way, with that failure.
pub proof fn lemma_failure_ends_run(state: IngestStateView, message: Seq<char>)
    requires
        state !is Finished,
    ensures
        stepped(state, StoreReplyView::Failed(message)) == Some(
            (
                IngestStateView::Finished,
                IngestActionView::Finish(Err(IngestErrorView::Store(message))),
            ),
        ),
{
}

/// Runs one ingestion over the raw entries of a feed document against
/// `store`: each entry is normalized and stored unless the store holds its
/// link already. Stored entries are left as they are.
pub fn ingest_entries(store: &mut Store, feed: &Vec<RawEntry>) -> (result: Result<(), IngestError>)
    ensures
        result is Ok,
        final(store)@ == ingested(old(store)@, raw_views(feed@)),
{
    let ghost before = store@;
    let ghost raw = raw_views(feed@);
    let (mut state, mut action) = begin_with(feed);
    proof {
        assert(raw.take(0) =~= Seq::<RawEntryView>::empty());
        lemma_turned_on_course(before, before, raw, 0);
    }
    loop
        invariant
            before == old(store)@,
            raw == raw_views(feed@),
            on_course(state@, action@, store@, before, raw),
        decreases steps_left(state@),
    {
        let ghost held = store@;
        let ghost request = action@;
        let reply = match action {
            IngestAction::Finish(result) => {
                return result;
            },
            IngestAction::FindOne(filter) => StoreReply::Found(store.find_one(&filter)),
            IngestAction::Insert(entry) => {
                store.insert(entry);
                StoreReply::Inserted
            },
        };
        proof {
            lemma_step_stays_on_course(state@, request, held, before, raw, reply@);
        }
        let (then, next) = step(state, reply).unwrap();
        state = then;
        action = next;
    }
}

/// Runs one ingestion with what the feed source returned.
///
/// A failed fetch ends the run with its error, and so does a document that
/// cannot be read, because it is nested too deeply or is malformed: both
/// leave the store exactly as it was. Otherwise every entry of the document,
/// in the order in which the parser hands the entries out, is normalized and
/// stored unless the store holds its link already.
pub fn ingest_once(store: &mut Store, fetched: Result<Vec<u8>, FetchError>) -> (result: Result<
    (),
    IngestError,
>)
    ensures
        match fetched {
            Err(error) => {
                &&& result matches Err(e)
                &&& e@ == IngestErrorView::Fetch(error.message@)
                &&& final(store)@ == old(store)@
            },
            Ok(bytes) => match feed_document(bytes@) {
                None => {
                    &&& result matches Err(e)
                    &&& e@ matches IngestErrorView::Parse(message)
                    &&& nesting_bound(bytes@) > MAX_NESTING ==> message == too_deep()
                    &&& final(store)@ == old(store)@
                },
                Some(feed) => {
                    &&& result is Ok
                    &&& final(store)@ == ingested(old(store)@, feed)
                },
            },
        },
{
    match fetched {
        Err(error) => Err(IngestError::Fetch(error)),
        Ok(bytes) => match parse_feed(bytes.as_slice()) {
            Err(error) => Err(IngestError::Parse(error)),
            Ok(feed) => ingest_entries(store, &feed),
        },
    }
}

} // verus!
