//! Ingestion of a syndication feed into a keyed document store, and the
//! publication workflow over the stored entries.
//!
//! An entry is identified by its link. An ingestion run takes the entries of
//! one feed document, in the order in which the parser hands them out, and
//! stores those whose link the store does not hold yet; stored entries are
//! never rewritten by a run. The publication
//! workflow lists the entries that are not posted yet and marks batches of
//! them as posted.

pub mod dedupe;
pub mod entry;
pub mod error;
pub mod feed;
pub mod ingest;
pub mod nesting;
pub mod publish;
pub mod run;
pub mod schedule;
pub mod store;
