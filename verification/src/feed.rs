//! Reading a feed document: from bytes to its raw entries.

use crate::entry::{raw_views, RawEntry, RawEntryView};
use crate::error::ParseError;
use crate::nesting::{nesting_bound, nesting_of};
use vstd::prelude::*;

verus! {

/// `rss::Error`, the failure of the `rss` parser, as an opaque value.
#[verifier::external_type_specification]
#[verifier::external_body]
pub struct ExFeedError(rss::Error);

/// The deepest nesting of elements that a document may have to be read.
pub const MAX_NESTING: usize = 128;

/// What `rss::Channel::read_from` makes of a byte sequence: `None` where it
/// rejects the bytes, else the items of the channel that it read, in the
/// order in which it hands them out, each as the four optional texts that
/// `rss::Item` gives for its title, link, description and publication date.
pub uninterp spec fn feed_items(bytes: Seq<u8>) -> Option<Seq<RawEntryView>>;

/// The raw entries of a feed document, in the order in which the parser
/// hands them out, or `None` where the bytes are no feed document that can
/// be read: where their elements may be nested more deeply than
/// [`MAX_NESTING`], or where the parser rejects them.
pub open spec fn feed_document(bytes: Seq<u8>) -> Option<Seq<RawEntryView>> {
    if nesting_bound(bytes) <= MAX_NESTING {
        feed_items(bytes)
    } else {
        None
    }
}

/// Calls `rss::Channel::read_from` on the bytes and hands out the items of
/// the channel through `rss::Item::{title, link, description, pub_date}`.
///
/// The parser calls itself once for every element that is open inside an
/// element with a namespace prefix, so its stack grows with the nesting of
/// the document. The precondition keeps it shallow, and rests on this:
/// [`nesting_bound`] is never below the number of elements that the reader
/// under the parser (`quick_xml::Reader`, with empty elements expanded) has
/// open at once, because the machine behind the bound ends each piece of
/// markup where that reader ends it, and counts every possible start tag
/// once it follows the reader no longer.
///
/// The postcondition only names the outcome: it is [`feed_items`] of the
/// bytes, which rests on the parser reading nothing but its input.
#[verifier::external_body]
fn read_channel(bytes: &[u8]) -> (read: Result<Vec<RawEntry>, rss::Error>)
    requires
        nesting_bound(bytes@) <= MAX_NESTING,
    ensures
        match read {
            Ok(items) => feed_items(bytes@) == Some(raw_views(items@)),
            Err(_) => feed_items(bytes@) is None,
        },
{
    let channel = rss::Channel::read_from(bytes)?;
    let mut entries: Vec<RawEntry> = Vec::new();
    for item in channel.into_items() {
        entries.push(RawEntry {
            title: item.title().map(String::from),
            link: item.link().map(String::from),
            description: item.description().map(String::from),
            publication_date: item.pub_date().map(String::from),
        });
    }
    Ok(entries)
}

/// The text that `rss::Error` displays. Nothing is claimed of it.
#[verifier::external_body]
fn describe(error: &rss::Error) -> (text: String) {
    error.to_string()
}

/// The message of the failure to read a document that is nested too deeply.
pub open spec fn too_deep() -> Seq<char> {
    "the elements of the document are nested too deeply"@
}

/// Decodes a feed document into its raw entries, in the order in which the
/// parser hands them out. Fails where the elements of the document may be
/// nested more deeply than [`MAX_NESTING`], without parsing it, and where
/// the bytes are not a well-formed feed document.
pub fn parse_feed(bytes: &[u8]) -> (parsed: Result<Vec<RawEntry>, ParseError>)
    ensures
        match parsed {
            Ok(items) => feed_document(bytes@) == Some(raw_views(items@)),
            Err(error) => {
                &&& feed_document(bytes@) is None
                &&& nesting_bound(bytes@) > MAX_NESTING ==> error.message@ == too_deep()
            },
        },
{
    if nesting_of(bytes) > MAX_NESTING {
        let message = "the elements of the document are nested too deeply".to_owned();
        return Err(ParseError { message });
    }
    match read_channel(bytes) {
        Ok(items) => Ok(items),
        Err(error) => Err(ParseError { message: describe(&error) }),
    }
}

} // verus!
