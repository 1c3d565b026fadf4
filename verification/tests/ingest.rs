use feed_ingest::entry::{normalize, normalize_all, Entry, RawEntry};
use feed_ingest::error::{FetchError, IngestError, StoreError};
use feed_ingest::feed::parse_feed;
use feed_ingest::ingest::{ingest_entries, ingest_once};
use feed_ingest::run::{begin, begin_with, step, turn_to, IngestAction, IngestState, StoreReply};
use feed_ingest::publish::{list_all, mark_posted};
use feed_ingest::store::{Filter, Store};

fn raw(title: &str, link: &str) -> RawEntry {
    RawEntry {
        title: Some(title.to_string()),
        link: Some(link.to_string()),
        description: Some(format!("about {}", title)),
        publication_date: Some("Mon, 01 Jan 2024 00:00:00 GMT".to_string()),
    }
}

fn document(items: &[(&str, &str)]) -> Vec<u8> {
    let mut text = String::from(
        "<?xml version=\"1.0\" encoding=\"UTF-8\"?><rss version=\"2.0\"><channel>\
         <title>Example</title><link>http://example.com/</link><description>A feed</description>",
    );
    for (title, link) in items {
        text.push_str(&format!(
            "<item><title>{}</title><link>{}</link><description>about {}</description>\
             <pubDate>Mon, 01 Jan 2024 00:00:00 GMT</pubDate></item>",
            title, link, title
        ));
    }
    text.push_str("</channel></rss>");
    text.into_bytes()
}

fn links_of(entries: &[Entry]) -> Vec<String> {
    entries.iter().map(|e| e.link.clone()).collect()
}

#[test]
fn normalize_takes_present_fields_verbatim() {
    let entry = normalize(&raw("One", "http://example.com/1"));
    assert_eq!(entry.title, "One");
    assert_eq!(entry.link, "http://example.com/1");
    assert_eq!(entry.description, "about One");
    assert_eq!(entry.publication_date, "Mon, 01 Jan 2024 00:00:00 GMT");
    assert!(!entry.posted);
}

#[test]
fn normalize_substitutes_empty_description() {
    let mut item = raw("One", "http://example.com/1");
    item.description = None;
    let entry = normalize(&item);
    assert_eq!(entry.description, "");
    assert_eq!(entry.title, "One");
}

#[test]
fn normalize_substitutes_every_absent_field() {
    let item = RawEntry { title: None, link: None, description: None, publication_date: None };
    let entry = normalize(&item);
    assert_eq!(entry.title, "");
    assert_eq!(entry.link, "");
    assert_eq!(entry.description, "");
    assert_eq!(entry.publication_date, "");
    assert!(!entry.posted);
}

#[test]
fn normalize_all_keeps_order() {
    let feed = vec![raw("One", "L1"), raw("Two", "L2"), raw("Three", "L3")];
    let entries = normalize_all(&feed);
    assert_eq!(links_of(&entries), vec!["L1", "L2", "L3"]);
}

#[test]
fn parse_feed_hands_out_items_in_order() {
    let bytes = document(&[("One", "http://example.com/1"), ("Two", "http://example.com/2")]);
    let items = match parse_feed(&bytes) {
        Ok(items) => items,
        Err(e) => panic!("well-formed document rejected: {}", e.message),
    };
    assert_eq!(items.len(), 2);
    assert_eq!(items[0].title.as_deref(), Some("One"));
    assert_eq!(items[0].link.as_deref(), Some("http://example.com/1"));
    assert_eq!(items[0].description.as_deref(), Some("about One"));
    assert_eq!(items[0].publication_date.as_deref(), Some("Mon, 01 Jan 2024 00:00:00 GMT"));
    assert_eq!(items[1].title.as_deref(), Some("Two"));
    assert_eq!(items[1].link.as_deref(), Some("http://example.com/2"));
}

#[test]
fn parse_feed_reports_absent_fields() {
    let bytes = b"<rss version=\"2.0\"><channel><title>T</title><link>l</link>\
        <description>d</description><item><link>http://example.com/only</link></item>\
        </channel></rss>"
        .to_vec();
    let items = parse_feed(&bytes).ok().unwrap();
    assert_eq!(items.len(), 1);
    assert_eq!(items[0].title, None);
    assert_eq!(items[0].description, None);
    assert_eq!(items[0].publication_date, None);
    assert_eq!(items[0].link.as_deref(), Some("http://example.com/only"));
}

#[test]
fn parse_feed_rejects_other_documents() {
    assert!(parse_feed(b"<html><body>no feed</body></html>").is_err());
    assert!(parse_feed(b"").is_err());
    assert!(parse_feed(b"not xml at all").is_err());
}

#[test]
fn parse_feed_accepts_empty_channel() {
    let items = parse_feed(&document(&[])).ok().unwrap();
    assert!(items.is_empty());
}

#[test]
fn ingest_stores_new_entries_unposted() {
    let mut store = Store::new();
    let result = ingest_once(&mut store, Ok(document(&[("a", "L1"), ("b", "L2"), ("c", "L3")])));
    assert!(result.is_ok());
    let all = list_all(&store);
    assert_eq!(links_of(&all), vec!["L1", "L2", "L3"]);
    assert!(all.iter().all(|e| !e.posted));
    assert_eq!(all[0].title, "a");
    assert_eq!(all[0].description, "about a");
}

#[test]
fn ingest_second_feed_adds_only_new_link() {
    let mut store = Store::new();
    assert!(ingest_once(&mut store, Ok(document(&[("a", "L1"), ("b", "L2"), ("c", "L3")]))).is_ok());
    assert_eq!(mark_posted(&mut store, vec!["L2".to_string()]), 1);
    let feed = document(&[("a2", "L1"), ("b2", "L2"), ("c2", "L3"), ("d", "L4")]);
    assert!(ingest_once(&mut store, Ok(feed)).is_ok());
    let all = list_all(&store);
    assert_eq!(links_of(&all), vec!["L1", "L2", "L3", "L4"]);
    assert_eq!(all[0].title, "a");
    assert_eq!(all[1].title, "b");
    assert_eq!(all[2].title, "c");
    assert_eq!(all[3].title, "d");
    assert!(!all[0].posted);
    assert!(all[1].posted);
    assert!(!all[2].posted);
    assert!(!all[3].posted);
}

#[test]
fn ingest_twice_is_idempotent() {
    let mut store = Store::new();
    let feed = document(&[("a", "L1"), ("b", "L2")]);
    assert!(ingest_once(&mut store, Ok(feed.clone())).is_ok());
    let once: Vec<(String, String, bool)> =
        list_all(&store).into_iter().map(|e| (e.link, e.title, e.posted)).collect();
    assert!(ingest_once(&mut store, Ok(feed)).is_ok());
    let twice: Vec<(String, String, bool)> =
        list_all(&store).into_iter().map(|e| (e.link, e.title, e.posted)).collect();
    assert_eq!(once, twice);
    assert_eq!(store.len(), 2);
}

#[test]
fn ingest_keeps_first_of_equal_links() {
    let mut store = Store::new();
    let feed = vec![raw("first", "L"), raw("second", "L"), raw("other", "M")];
    assert!(ingest_entries(&mut store, &feed).is_ok());
    let all = list_all(&store);
    assert_eq!(links_of(&all), vec!["L", "M"]);
    assert_eq!(all[0].title, "first");
}

#[test]
fn ingest_does_not_update_changed_fields() {
    let mut store = Store::new();
    assert!(ingest_entries(&mut store, &vec![raw("old title", "L")]).is_ok());
    assert!(ingest_entries(&mut store, &vec![raw("new title", "L")]).is_ok());
    let all = list_all(&store);
    assert_eq!(all.len(), 1);
    assert_eq!(all[0].title, "old title");
    assert_eq!(all[0].description, "about old title");
}

#[test]
fn ingest_empty_feed_stores_nothing() {
    let mut store = Store::new();
    assert!(ingest_once(&mut store, Ok(document(&[]))).is_ok());
    assert_eq!(store.len(), 0);
}

#[test]
fn ingest_fetch_failure_leaves_store() {
    let mut store = Store::new();
    assert!(ingest_entries(&mut store, &vec![raw("a", "L1")]).is_ok());
    let result = ingest_once(&mut store, Err(FetchError { message: "connection refused".to_string() }));
    match result {
        Err(IngestError::Fetch(e)) => assert_eq!(e.message, "connection refused"),
        _ => panic!("a failed fetch must end the run with its error"),
    }
    let all = list_all(&store);
    assert_eq!(links_of(&all), vec!["L1"]);
    assert_eq!(all[0].title, "a");
}

#[test]
fn ingest_parse_failure_leaves_store() {
    let mut store = Store::new();
    assert!(ingest_entries(&mut store, &vec![raw("a", "L1")]).is_ok());
    let result = ingest_once(&mut store, Ok(b"<feed>not rss</feed>".to_vec()));
    assert!(matches!(result, Err(IngestError::Parse(_))));
    assert_eq!(links_of(&list_all(&store)), vec!["L1"]);
}

#[test]
fn error_message_is_that_of_its_cause() {
    let e = IngestError::Store(StoreError { message: "down".to_string() });
    assert_eq!(e.message(), "down");
    let e = IngestError::Fetch(FetchError { message: "timeout".to_string() });
    assert_eq!(e.message(), "timeout");
}

#[test]
fn begin_propagates_fetch_error() {
    let (state, action) = begin(Err(FetchError { message: "dns".to_string() }));
    assert!(matches!(state, IngestState::Finished));
    match action {
        IngestAction::Finish(Err(IngestError::Fetch(e))) => assert_eq!(e.message, "dns"),
        _ => panic!("expected the fetch error"),
    }
}

#[test]
fn begin_propagates_parse_error() {
    let (state, action) = begin(Ok(b"<<<".to_vec()));
    assert!(matches!(state, IngestState::Finished));
    assert!(matches!(action, IngestAction::Finish(Err(IngestError::Parse(_)))));
}

#[test]
fn begin_asks_for_first_link() {
    let (state, action) = begin(Ok(document(&[("a", "L1"), ("b", "L2")])));
    match state {
        IngestState::Checking { entries, at } => {
            assert_eq!(at, 0);
            assert_eq!(links_of(&entries), vec!["L1", "L2"]);
        }
        _ => panic!("expected a lookup"),
    }
    match action {
        IngestAction::FindOne(Filter::LinkIs(link)) => assert_eq!(link, "L1"),
        _ => panic!("expected a lookup by link"),
    }
}

#[test]
fn begin_with_empty_feed_finishes() {
    let (state, action) = begin_with(&vec![]);
    assert!(matches!(state, IngestState::Finished));
    assert!(matches!(action, IngestAction::Finish(Ok(()))));
}

#[test]
fn step_inserts_missing_and_skips_found() {
    let (state, _) = begin_with(&vec![raw("a", "L1"), raw("b", "L2")]);
    let (state, action) = step(state, StoreReply::Found(None)).unwrap();
    assert!(matches!(state, IngestState::Inserting { at: 0, .. }));
    match action {
        IngestAction::Insert(entry) => {
            assert_eq!(entry.link, "L1");
            assert_eq!(entry.title, "a");
            assert!(!entry.posted);
        }
        _ => panic!("expected an insert"),
    }
    let (state, action) = step(state, StoreReply::Inserted).unwrap();
    assert!(matches!(state, IngestState::Checking { at: 1, .. }));
    match action {
        IngestAction::FindOne(Filter::LinkIs(link)) => assert_eq!(link, "L2"),
        _ => panic!("expected a lookup by link"),
    }
    let found = normalize(&raw("stored", "L2"));
    let (state, action) = step(state, StoreReply::Found(Some(found))).unwrap();
    assert!(matches!(state, IngestState::Finished));
    assert!(matches!(action, IngestAction::Finish(Ok(()))));
}

#[test]
fn step_ends_run_on_store_failure() {
    let (state, _) = begin_with(&vec![raw("a", "L1"), raw("b", "L2")]);
    let failed = StoreReply::Failed(StoreError { message: "unreachable".to_string() });
    let (state, action) = step(state, failed).unwrap();
    assert!(matches!(state, IngestState::Finished));
    match action {
        IngestAction::Finish(Err(IngestError::Store(e))) => assert_eq!(e.message, "unreachable"),
        _ => panic!("expected the store error"),
    }

    let (state, _) = begin_with(&vec![raw("a", "L1")]);
    let (state, _) = step(state, StoreReply::Found(None)).unwrap();
    let failed = StoreReply::Failed(StoreError { message: "write failed".to_string() });
    let (_, action) = step(state, failed).unwrap();
    match action {
        IngestAction::Finish(Err(IngestError::Store(e))) => assert_eq!(e.message, "write failed"),
        _ => panic!("expected the store error"),
    }
}

#[test]
fn step_refuses_reply_to_no_request() {
    let (state, _) = begin_with(&vec![raw("a", "L1")]);
    assert!(step(state, StoreReply::Inserted).is_none());
    let (state, _) = begin_with(&vec![raw("a", "L1")]);
    let (state, _) = step(state, StoreReply::Found(None)).unwrap();
    assert!(step(state, StoreReply::Found(None)).is_none());
    assert!(step(IngestState::Finished, StoreReply::Inserted).is_none());
    assert!(step(IngestState::Finished, StoreReply::Found(None)).is_none());
    let failed = StoreReply::Failed(StoreError { message: "late".to_string() });
    assert!(step(IngestState::Finished, failed).is_none());
}

#[test]
fn turn_to_past_the_end_finishes() {
    let entries = normalize_all(&vec![raw("a", "L1")]);
    let (state, action) = turn_to(entries, 1);
    assert!(matches!(state, IngestState::Finished));
    assert!(matches!(action, IngestAction::Finish(Ok(()))));
}
