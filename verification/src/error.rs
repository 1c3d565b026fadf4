//! The failures that end an ingestion run.

use vstd::prelude::*;

verus! {

/// The feed could not be retrieved: a failure of the transport.
pub struct FetchError {
    pub message: String,
}

/// The retrieved bytes are no feed document that can be read: they are
/// malformed, or their elements are nested too deeply.
pub struct ParseError {
    pub message: String,
}

/// The document store was unavailable, or one of its operations failed.
pub struct StoreError {
    pub message: String,
}

/// Why an ingestion run ended early. Each of the three is fatal to the run.
pub enum IngestError {
    Fetch(FetchError),
    Parse(ParseError),
    Store(StoreError),
}

/// The mathematical value of an [`IngestError`]: its kind and its message.
pub ghost enum IngestErrorView {
    Fetch(Seq<char>),
    Parse(Seq<char>),
    Store(Seq<char>),
}

impl IngestErrorView {
    /// The message, whatever the kind.
    pub open spec fn message(self) -> Seq<char> {
        match self {
            IngestErrorView::Fetch(m) => m,
            IngestErrorView::Parse(m) => m,
            IngestErrorView::Store(m) => m,
        }
    }
}

impl View for IngestError {
    type V = IngestErrorView;

    open spec fn view(&self) -> IngestErrorView {
        match *self {
            IngestError::Fetch(e) => IngestErrorView::Fetch(e.message@),
            IngestError::Parse(e) => IngestErrorView::Parse(e.message@),
            IngestError::Store(e) => IngestErrorView::Store(e.message@),
        }
    }
}

impl IngestError {
    /// The message of the failure that this error carries.
    pub fn message(&self) -> (text: String)
        ensures
            text@ == self@.message(),
    {
        match self {
            IngestError::Fetch(e) => e.message.clone(),
            IngestError::Parse(e) => e.message.clone(),
            IngestError::Store(e) => e.message.clone(),
        }
    }
}

} // verus!
