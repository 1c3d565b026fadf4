//! An ingestion run as a machine that is driven from outside.
//!
//! The run hands out one request to the store at a time and is stepped with
//! the reply: a lookup of the link of the current entry, then an insert
//! where the lookup found nothing. Whoever drives it performs the requests,
//! on whatever store there is.

use crate::entry::{
    entry_views, normalize_all, normalized_all, raw_views, Entry, EntryView, RawEntry,
};
use crate::error::{FetchError, IngestError, IngestErrorView, StoreError};
use crate::feed::{feed_document, parse_feed, too_deep, MAX_NESTING};
use crate::nesting::nesting_bound;
use crate::store::{Filter, FilterView};
use vstd::prelude::*;

verus! {

/// Where a run stands.
pub enum IngestState {
    /// The store was asked for an entry with the link of `entries[at]`.
    Checking { entries: Vec<Entry>, at: usize },
    /// The store was asked to insert `entries[at]`.
    Inserting { entries: Vec<Entry>, at: usize },
    /// The run is over.
    Finished,
}

/// The mathematical value of an [`IngestState`].
pub ghost enum IngestStateView {
    Checking { entries: Seq<EntryView>, at: nat },
    Inserting { entries: Seq<EntryView>, at: nat },
    Finished,
}

impl View for IngestState {
    type V = IngestStateView;

    open spec fn view(&self) -> IngestStateView {
        match *self {
            IngestState::Checking { entries, at } => IngestStateView::Checking {
                entries: entry_views(entries@),
                at: at as nat,
            },
            IngestState::Inserting { entries, at } => IngestStateView::Inserting {
                entries: entry_views(entries@),
                at: at as nat,
            },
            IngestState::Finished => IngestStateView::Finished,
        }
    }
}

/// What a run asks for next.
pub enum IngestAction {
    /// Find one stored entry that the filter selects.
    FindOne(Filter),
    /// Insert this entry.
    Insert(Entry),
    /// Nothing more: the run ended with this result.
    Finish(Result<(), IngestError>),
}

/// The mathematical value of an [`IngestAction`].
pub ghost enum IngestActionView {
    FindOne(FilterView),
    Insert(EntryView),
    Finish(Result<(), IngestErrorView>),
}

impl View for IngestAction {
    type V = IngestActionView;

    open spec fn view(&self) -> IngestActionView {
        match *self {
            IngestAction::FindOne(filter) => IngestActionView::FindOne(filter@),
            IngestAction::Insert(entry) => IngestActionView::Insert(entry@),
            IngestAction::Finish(Ok(())) => IngestActionView::Finish(Ok(())),
            IngestAction::Finish(Err(error)) => IngestActionView::Finish(Err(error@)),
        }
    }
}

/// What the store answered.
pub enum StoreReply {
    /// The answer to a find: the entry found, or `None`.
    Found(Option<Entry>),
    /// The answer to an insert that was carried out.
    Inserted,
    /// The operation failed.
    Failed(StoreError),
}

/// The mathematical value of a [`StoreReply`].
pub ghost enum StoreReplyView {
    Found(Option<EntryView>),
    Inserted,
    Failed(Seq<char>),
}

impl View for StoreReply {
    type V = StoreReplyView;

    open spec fn view(&self) -> StoreReplyView {
        match *self {
            StoreReply::Found(Some(entry)) => StoreReplyView::Found(Some(entry@)),
            StoreReply::Found(None) => StoreReplyView::Found(None),
            StoreReply::Inserted => StoreReplyView::Inserted,
            StoreReply::Failed(error) => StoreReplyView::Failed(error.message@),
        }
    }
}

/// The state and request with which a run turns to the entry at `at`: a
/// lookup of its link, or the end of the run where no entry is left.
pub open spec fn turned_to(entries: Seq<EntryView>, at: nat) -> (IngestStateView, IngestActionView) {
    if at < entries.len() {
        (
            IngestStateView::Checking { entries, at },
            IngestActionView::FindOne(FilterView::LinkIs(entries[at as int].link)),
        )
    } else {
        (IngestStateView::Finished, IngestActionView::Finish(Ok(())))
    }
}

/// The state and request that follow when `reply` answers the request that
/// is outstanding in `state`, or `None` where it does not answer it.
///
/// A found entry is skipped; a missing one is inserted, and the run turns to
/// the next entry once the insert is confirmed; a failure of the store ends
/// the run with that failure.
pub open spec fn stepped(state: IngestStateView, reply: StoreReplyView) -> Option<
    (IngestStateView, IngestActionView),
> {
    match (state, reply) {
        (IngestStateView::Checking { entries, at }, StoreReplyView::Found(found)) => {
            if at < entries.len() && found is None {
                Some(
                    (
                        IngestStateView::Inserting { entries, at },
                        IngestActionView::Insert(entries[at as int]),
                    ),
                )
            } else {
                Some(turned_to(entries, at + 1))
            }
        },
        (IngestStateView::Inserting { entries, at }, StoreReplyView::Inserted) => Some(
            turned_to(entries, at + 1),
        ),
        (IngestStateView::Checking { .. }, StoreReplyView::Failed(message)) => Some(
            (
                IngestStateView::Finished,
                IngestActionView::Finish(Err(IngestErrorView::Store(message))),
            ),
        ),
        (IngestStateView::Inserting { .. }, StoreReplyView::Failed(message)) => Some(
            (
                IngestStateView::Finished,
                IngestActionView::Finish(Err(IngestErrorView::Store(message))),
            ),
        ),
        _ => None,
    }
}

/// The state that a run is in after it was handed `fetched`, and its first
/// request, for each outcome of reading the bytes as a feed document: a
/// failed fetch and a document that cannot be read (nested too deeply, or
/// malformed) end the run at once, each with its own kind of error; a
/// document starts the run at the first entry that the parser hands out.
pub open spec fn begun(
    fetched: Result<Seq<u8>, Seq<char>>,
    state: IngestStateView,
    action: IngestActionView,
) -> bool {
    match fetched {
        Err(message) => {
            &&& state == IngestStateView::Finished
            &&& action == IngestActionView::Finish(Err(IngestErrorView::Fetch(message)))
        },
        Ok(bytes) => match feed_document(bytes) {
            None => {
                &&& state == IngestStateView::Finished
                &&& action matches IngestActionView::Finish(Err(IngestErrorView::Parse(message)))
                &&& nesting_bound(bytes) > MAX_NESTING ==> message == too_deep()
            },
            Some(feed) => (state, action) == turned_to(normalized_all(feed), 0),
        },
    }
}

/// The value of what the feed source returned: the bytes, or the message of
/// the failure.
pub open spec fn fetched_view(fetched: Result<Vec<u8>, FetchError>) -> Result<Seq<u8>, Seq<char>> {
    match fetched {
        Ok(bytes) => Ok(bytes@),
        Err(error) => Err(error.message@),
    }
}

/// Turns a run to the entry at `at`: asks the store for an entry with its
/// link, or ends the run where no entry is left.
pub fn turn_to(entries: Vec<Entry>, at: usize) -> (next: (IngestState, IngestAction))
    ensures
        (next.0@, next.1@) == turned_to(entry_views(entries@), at as nat),
{
    if at < entries.len() {
        let link = entries[at].link.clone();
        (IngestState::Checking { entries, at }, IngestAction::FindOne(Filter::LinkIs(link)))
    } else {
        (IngestState::Finished, IngestAction::Finish(Ok(())))
    }
}

/// Starts a run over the raw entries of a feed document.
pub fn begin_with(feed: &Vec<RawEntry>) -> (next: (IngestState, IngestAction))
    ensures
        (next.0@, next.1@) == turned_to(normalized_all(raw_views(feed@)), 0),
{
    turn_to(normalize_all(feed), 0)
}

/// Starts a run with what the feed source returned: propagates a failed
/// fetch, reads the bytes as a feed document and propagates the failure of
/// one that cannot be read, else turns to the first entry.
pub fn begin(fetched: Result<Vec<u8>, FetchError>) -> (next: (IngestState, IngestAction))
    ensures
        begun(fetched_view(fetched), next.0@, next.1@),
{
    match fetched {
        Err(error) => (IngestState::Finished, IngestAction::Finish(Err(IngestError::Fetch(error)))),
        Ok(bytes) => match parse_feed(bytes.as_slice()) {
            Err(error) => (
                IngestState::Finished,
                IngestAction::Finish(Err(IngestError::Parse(error))),
            ),
            Ok(feed) => begin_with(&feed),
        },
    }
}

/// Steps a run with the reply to its outstanding request. Returns the next
/// state and request, or `None` where the reply does not answer the request
/// that the state is waiting for (a finished run waits for none).
pub fn step(state: IngestState, reply: StoreReply) -> (next: Option<(IngestState, IngestAction)>)
    ensures
        match next {
            Some((then, action)) => stepped(state@, reply@) == Some((then@, action@)),
            None => stepped(state@, reply@) is None,
        },
{
    match (state, reply) {
        (IngestState::Checking { entries, at }, StoreReply::Found(found)) => {
            if at < entries.len() {
                if found.is_none() {
                    let entry = entries[at].duplicate();
                    Some((IngestState::Inserting { entries, at }, IngestAction::Insert(entry)))
                } else {
                    Some(turn_to(entries, at + 1))
                }
            } else {
                Some((IngestState::Finished, IngestAction::Finish(Ok(()))))
            }
        },
        (IngestState::Inserting { entries, at }, StoreReply::Inserted) => {
            if at < entries.len() {
                Some(turn_to(entries, at + 1))
            } else {
                Some((IngestState::Finished, IngestAction::Finish(Ok(()))))
            }
        },
        (IngestState::Checking { .. }, StoreReply::Failed(error)) => Some(
            (IngestState::Finished, IngestAction::Finish(Err(IngestError::Store(error)))),
        ),
        (IngestState::Inserting { .. }, StoreReply::Failed(error)) => Some(
            (IngestState::Finished, IngestAction::Finish(Err(IngestError::Store(error)))),
        ),
        _ => None,
    }
}

} // verus!
