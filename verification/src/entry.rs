//! The canonical entry record and the raw entry of a feed document.

use vstd::prelude::*;

verus! {

/// One item as a feed document gives it: each text field may be absent.
pub struct RawEntry {
    pub title: Option<String>,
    pub link: Option<String>,
    pub description: Option<String>,
    pub publication_date: Option<String>,
}

/// The mathematical value of a [`RawEntry`].
pub ghost struct RawEntryView {
    pub title: Option<Seq<char>>,
    pub link: Option<Seq<char>>,
    pub description: Option<Seq<char>>,
    pub publication_date: Option<Seq<char>>,
}

/// The text of an optional string, or `None` where it is absent.
pub open spec fn text_view(field: Option<String>) -> Option<Seq<char>> {
    match field {
        Some(s) => Some(s@),
        None => None,
    }
}

impl View for RawEntry {
    type V = RawEntryView;

    open spec fn view(&self) -> RawEntryView {
        RawEntryView {
            title: text_view(self.title),
            link: text_view(self.link),
            description: text_view(self.description),
            publication_date: text_view(self.publication_date),
        }
    }
}

/// A stored entry. Its `link` is its identity; `posted` is the only field
/// that changes after the entry was created.
pub struct Entry {
    pub title: String,
    pub link: String,
    pub description: String,
    pub publication_date: String,
    pub posted: bool,
}

/// The mathematical value of an [`Entry`].
pub ghost struct EntryView {
    pub title: Seq<char>,
    pub link: Seq<char>,
    pub description: Seq<char>,
    pub publication_date: Seq<char>,
    pub posted: bool,
}

impl View for Entry {
    type V = EntryView;

    open spec fn view(&self) -> EntryView {
        EntryView {
            title: self.title@,
            link: self.link@,
            description: self.description@,
            publication_date: self.publication_date@,
            posted: self.posted,
        }
    }
}

/// The values of a sequence of entries, in the same order.
pub open spec fn entry_views(entries: Seq<Entry>) -> Seq<EntryView> {
    entries.map_values(|e: Entry| e@)
}

/// The values of a sequence of raw entries, in the same order.
pub open spec fn raw_views(entries: Seq<RawEntry>) -> Seq<RawEntryView> {
    entries.map_values(|e: RawEntry| e@)
}

/// A present text as it stands, an absent one as the empty text.
pub open spec fn text_or_empty(field: Option<Seq<char>>) -> Seq<char> {
    match field {
        Some(s) => s,
        None => Seq::empty(),
    }
}

/// The entry that a raw entry stands for: every text field taken verbatim
/// where present and empty where absent, and not posted.
pub open spec fn normalized(raw: RawEntryView) -> EntryView {
    EntryView {
        title: text_or_empty(raw.title),
        link: text_or_empty(raw.link),
        description: text_or_empty(raw.description),
        publication_date: text_or_empty(raw.publication_date),
        posted: false,
    }
}

/// The normalized entries of a feed, in feed order.
pub open spec fn normalized_all(feed: Seq<RawEntryView>) -> Seq<EntryView> {
    feed.map_values(|raw: RawEntryView| normalized(raw))
}

/// A copy of a present string, or the empty string for an absent one.
pub fn text_or_default(field: &Option<String>) -> (text: String)
    ensures
        text@ == text_or_empty(text_view(*field)),
{
    match field {
        Some(s) => s.clone(),
        None => String::new(),
    }
}

/// Maps a raw feed entry to the canonical record: each text field is taken
/// verbatim where present and is empty where absent, and the entry is not
/// posted. Never fails.
pub fn normalize(raw: &RawEntry) -> (entry: Entry)
    ensures
        entry@ == normalized(raw@),
{
    Entry {
        title: text_or_default(&raw.title),
        link: text_or_default(&raw.link),
        description: text_or_default(&raw.description),
        publication_date: text_or_default(&raw.publication_date),
        posted: false,
    }
}

/// Normalizes every raw entry of a feed, keeping the order.
pub fn normalize_all(feed: &Vec<RawEntry>) -> (entries: Vec<Entry>)
    ensures
        entry_views(entries@) == normalized_all(raw_views(feed@)),
{
    let mut entries: Vec<Entry> = Vec::new();
    let mut i: usize = 0;
    while i < feed.len()
        invariant
            i <= feed.len(),
            entry_views(entries@) == normalized_all(raw_views(feed@).take(i as int)),
        decreases feed.len() - i,
    {
        let ghost done = entries@;
        let entry = normalize(&feed[i]);
        entries.push(entry);
        i += 1;
        proof {
            let raw = raw_views(feed@);
            assert(raw.take(i as int) =~= raw.take(i - 1).push(raw[i - 1]));
            assert(entry_views(entries@) =~= entry_views(done).push(entry@));
            assert(normalized_all(raw.take(i as int)) =~= normalized_all(raw.take(i - 1)).push(
                normalized(raw[i - 1]),
            ));
        }
    }
    assert(raw_views(feed@).take(i as int) =~= raw_views(feed@));
    entries
}

impl Entry {
    /// A copy of this entry, field for field.
    pub fn duplicate(&self) -> (copy: Entry)
        ensures
            copy@ == self@,
    {
        Entry {
            title: self.title.clone(),
            link: self.link.clone(),
            description: self.description.clone(),
            publication_date: self.publication_date.clone(),
            posted: self.posted,
        }
    }
}

} // verus!
