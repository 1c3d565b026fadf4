//! A document store of entries held in memory, with the four operations that
//! ingestion and publication ask of a store: find one, find all, insert and
//! update many.
//!
//! The store keeps its entries in the order in which they were inserted. It
//! enforces no uniqueness of links by itself: that is the work of ingestion.

use crate::entry::{entry_views, Entry, EntryView};
use vstd::prelude::*;

verus! {

/// Selects entries of a store.
pub enum Filter {
    /// Every entry.
    All,
    /// The entries that are not posted.
    Unposted,
    /// The entries with this link.
    LinkIs(String),
    /// The entries whose link is one of these.
    LinkIn(Vec<String>),
}

/// The mathematical value of a [`Filter`]; a list of links stands for the set
/// of its members.
pub ghost enum FilterView {
    All,
    Unposted,
    LinkIs(Seq<char>),
    LinkIn(Set<Seq<char>>),
}

/// The set of the texts that occur in a list of strings.
pub open spec fn link_set(links: Seq<String>) -> Set<Seq<char>> {
    Set::new(|l: Seq<char>| exists|i: int| 0 <= i < links.len() && (#[trigger] links[i])@ == l)
}

impl View for Filter {
    type V = FilterView;

    open spec fn view(&self) -> FilterView {
        match *self {
            Filter::All => FilterView::All,
            Filter::Unposted => FilterView::Unposted,
            Filter::LinkIs(link) => FilterView::LinkIs(link@),
            Filter::LinkIn(links) => FilterView::LinkIn(link_set(links@)),
        }
    }
}

/// Whether a filter selects an entry.
pub open spec fn admits(filter: FilterView, entry: EntryView) -> bool {
    match filter {
        FilterView::All => true,
        FilterView::Unposted => !entry.posted,
        FilterView::LinkIs(link) => entry.link == link,
        FilterView::LinkIn(links) => links.contains(entry.link),
    }
}

/// [`admits`] as a predicate on entries.
pub open spec fn admitted_by(filter: FilterView) -> spec_fn(EntryView) -> bool {
    |entry: EntryView| admits(filter, entry)
}

/// The predicate of the entries that an update through `filter` changes:
/// those that it selects and that are not posted yet.
pub open spec fn changed_by(filter: FilterView) -> spec_fn(EntryView) -> bool {
    |entry: EntryView| admits(filter, entry) && !entry.posted
}

/// The entries that a filter selects, in store order.
pub open spec fn selected(entries: Seq<EntryView>, filter: FilterView) -> Seq<EntryView> {
    entries.filter(admitted_by(filter))
}

/// The first entry that a filter selects, if it selects any.
pub open spec fn first_selected(entries: Seq<EntryView>, filter: FilterView) -> Option<
    EntryView,
> {
    if selected(entries, filter).len() > 0 {
        Some(selected(entries, filter)[0])
    } else {
        None
    }
}

/// An entry as it is after an update through `filter`: posted where the
/// filter selects it, unchanged otherwise.
pub open spec fn marked_entry(entry: EntryView, filter: FilterView) -> EntryView {
    if admits(filter, entry) {
        EntryView { posted: true, ..entry }
    } else {
        entry
    }
}

/// The store after an update through `filter`: same entries, same order,
/// each selected one posted.
pub open spec fn marked(entries: Seq<EntryView>, filter: FilterView) -> Seq<EntryView> {
    entries.map_values(|entry: EntryView| marked_entry(entry, filter))
}

/// How many entries an update through `filter` changes.
pub open spec fn modified_count(entries: Seq<EntryView>, filter: FilterView) -> nat {
    entries.filter(changed_by(filter)).len()
}

/// Whether a list of strings holds a given text.
pub fn contains_text(links: &Vec<String>, text: &String) -> (found: bool)
    ensures
        found == link_set(links@).contains(text@),
{
    let mut i: usize = 0;
    while i < links.len()
        invariant
            i <= links.len(),
            forall|j: int| 0 <= j < i ==> (#[trigger] links@[j])@ != text@,
        decreases links.len() - i,
    {
        if links[i] == *text {
            return true;
        }
        i += 1;
    }
    false
}

impl Filter {
    /// Whether this filter selects `entry`.
    pub fn matches(&self, entry: &Entry) -> (yes: bool)
        ensures
            yes == admits(self@, entry@),
    {
        match self {
            Filter::All => true,
            Filter::Unposted => !entry.posted,
            Filter::LinkIs(link) => entry.link == *link,
            Filter::LinkIn(links) => contains_text(links, &entry.link),
        }
    }
}

/// Filtering a prefix that is one entry longer keeps what the shorter prefix
/// gave and appends the new entry where the predicate holds of it.
pub proof fn lemma_filter_take_next(
    entries: Seq<EntryView>,
    pred: spec_fn(EntryView) -> bool,
    i: int,
)
    requires
        0 <= i < entries.len(),
    ensures
        entries.take(i + 1).filter(pred) == if pred(entries[i]) {
            entries.take(i).filter(pred).push(entries[i])
        } else {
            entries.take(i).filter(pred)
        },
{
    reveal(Seq::filter);
    assert(entries.take(i + 1).drop_last() =~= entries.take(i));
}

/// The entries of a store, in insertion order.
pub struct Store {
    entries: Vec<Entry>,
}

impl View for Store {
    type V = Seq<EntryView>;

    closed spec fn view(&self) -> Seq<EntryView> {
        entry_views(self.entries@)
    }
}

impl Store {
    /// An empty store.
    pub fn new() -> (store: Store)
        ensures
            store@ == Seq::<EntryView>::empty(),
    {
        let store = Store { entries: Vec::new() };
        assert(store@ =~= Seq::<EntryView>::empty());
        store
    }

    /// The number of stored entries.
    pub fn len(&self) -> (n: usize)
        ensures
            n == self@.len(),
    {
        self.entries.len()
    }

    /// Appends `entry` to the store, whatever the store holds already.
    pub fn insert(&mut self, entry: Entry)
        ensures
            final(self)@ == old(self)@.push(entry@),
    {
        self.entries.push(entry);
        assert(self@ =~= old(self)@.push(entry@));
    }

    /// The first stored entry that `filter` selects, or `None` where it
    /// selects none.
    pub fn find_one(&self, filter: &Filter) -> (found: Option<Entry>)
        ensures
            match found {
                Some(entry) => first_selected(self@, filter@) == Some(entry@),
                None => first_selected(self@, filter@) is None,
            },
    {
        let ghost all = self@;
        let mut i: usize = 0;
        while i < self.entries.len()
            invariant
                i <= self.entries.len(),
                all == entry_views(self.entries@),
                selected(all.take(i as int), filter@).len() == 0,
            decreases self.entries.len() - i,
        {
            proof {
                lemma_filter_take_next(all, admitted_by(filter@), i as int);
            }
            if filter.matches(&self.entries[i]) {
                proof {
                    let head = all.take(i + 1);
                    let tail = all.skip(i + 1);
                    assert(all =~= head + tail);
                    Seq::filter_distributes_over_add(head, tail, admitted_by(filter@));
                }
                return Some(self.entries[i].duplicate());
            }
            i += 1;
        }
        assert(all.take(i as int) =~= all);
        None
    }

    /// The stored entries that `filter` selects, in store order.
    pub fn find_all(&self, filter: &Filter) -> (found: Vec<Entry>)
        ensures
            entry_views(found@) == selected(self@, filter@),
    {
        let ghost all = self@;
        let mut found: Vec<Entry> = Vec::new();
        let mut i: usize = 0;
        assert(all.take(0) =~= Seq::<EntryView>::empty()) ;
        assert(entry_views(found@) =~= selected(all.take(0), filter@)) by {
            reveal(Seq::filter);
        }
        while i < self.entries.len()
            invariant
                i <= self.entries.len(),
                all == entry_views(self.entries@),
                entry_views(found@) == selected(all.take(i as int), filter@),
            decreases self.entries.len() - i,
        {
            proof {
                lemma_filter_take_next(all, admitted_by(filter@), i as int);
            }
            if filter.matches(&self.entries[i]) {
                let ghost before = found@;
                let copy = self.entries[i].duplicate();
                found.push(copy);
                assert(entry_views(found@) =~= entry_views(before).push(copy@));
            }
            i += 1;
        }
        assert(all.take(i as int) =~= all);
        found
    }

    /// Marks as posted every stored entry that `filter` selects, in one
    /// update, and returns how many entries that changed: those selected
    /// that were not posted before. No entry is added, removed or moved, and
    /// no other field changes.
    pub fn update_many(&mut self, filter: &Filter) -> (changed: usize)
        ensures
            final(self)@ == marked(old(self)@, filter@),
            changed == modified_count(old(self)@, filter@),
    {
        let ghost before = self@;
        let mut changed: usize = 0;
        let mut i: usize = 0;
        assert(before.take(0) =~= Seq::<EntryView>::empty());
        assert(modified_count(before.take(0), filter@) == 0) by {
            reveal(Seq::filter);
        }
        while i < self.entries.len()
            invariant
                i <= self.entries.len(),
                self.entries@.len() == before.len(),
                changed == modified_count(before.take(i as int), filter@),
                changed <= i,
                forall|j: int| 0 <= j < i ==> (#[trigger] self.entries@[j])@ == marked_entry(before[j], filter@),
                forall|j: int| i <= j < before.len() ==> (#[trigger] self.entries@[j])@ == before[j],
            decreases self.entries.len() - i,
        {
            proof {
                lemma_filter_take_next(before, changed_by(filter@), i as int);
            }
            if filter.matches(&self.entries[i]) {
                if !self.entries[i].posted {
                    changed += 1;
                }
                let mut entry = self.entries[i].duplicate();
                entry.posted = true;
                self.entries.set(i, entry);
            }
            i += 1;
        }
        assert(before.take(i as int) =~= before);
        assert(self@ =~= marked(before, filter@));
        changed
    }
}

} // verus!
