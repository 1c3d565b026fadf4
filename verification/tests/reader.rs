use feed_ingest::nesting::nesting_of;
use quick_xml::events::Event;
use quick_xml::Reader;

/// The most elements that the reader has open at once while it reads
/// `bytes`, with empty elements expanded, up to the end or the first error.
fn reader_depth(bytes: &[u8]) -> usize {
    let mut reader = Reader::from_reader(bytes);
    reader.config_mut().expand_empty_elements = true;
    let mut buf = Vec::new();
    let mut depth: usize = 0;
    let mut peak: usize = 0;
    loop {
        match reader.read_event_into(&mut buf) {
            Ok(Event::Start(_)) => {
                depth += 1;
                peak = peak.max(depth);
            }
            Ok(Event::End(_)) => depth = depth.saturating_sub(1),
            Ok(Event::Eof) | Err(_) => break,
            Ok(_) => {}
        }
        buf.clear();
    }
    peak
}

fn check(bytes: &[u8]) {
    let bound = nesting_of(bytes);
    let depth = reader_depth(bytes);
    assert!(
        bound >= depth,
        "bound {} is below the depth {} that the reader reaches in {:?}",
        bound,
        depth,
        String::from_utf8_lossy(bytes)
    );
}

/// Checks every sequence of at most `length` of the `pieces`.
fn check_all(pieces: &[&[u8]], length: usize) {
    let mut choice: Vec<usize> = Vec::new();
    let mut bytes: Vec<u8> = Vec::new();
    loop {
        bytes.clear();
        for &c in &choice {
            bytes.extend_from_slice(pieces[c]);
        }
        check(&bytes);
        let mut at = choice.len();
        loop {
            if at == 0 {
                if choice.len() == length {
                    return;
                }
                choice.push(0);
                for c in choice.iter_mut() {
                    *c = 0;
                }
                break;
            }
            at -= 1;
            if choice[at] + 1 < pieces.len() {
                choice[at] += 1;
                break;
            }
            choice[at] = 0;
        }
    }
}

/// Checks `count` sequences of up to `length` of the `pieces`, chosen by a
/// fixed pseudo-random sequence.
fn check_some(pieces: &[&[u8]], length: usize, count: usize, seed: u64) {
    let mut state = seed;
    let mut next = move || {
        state = state.wrapping_mul(6364136223846793005).wrapping_add(1442695040888963407);
        (state >> 33) as usize
    };
    let mut bytes: Vec<u8> = Vec::new();
    for _ in 0..count {
        bytes.clear();
        let n = next() % (length + 1);
        for _ in 0..n {
            bytes.extend_from_slice(pieces[next() % pieces.len()]);
        }
        check(&bytes);
    }
}

const BYTES: [&[u8]; 13] =
    [b"<", b">", b"/", b"!", b"?", b"-", b"[", b"]", b"'", b"\"", b"a", b" ", b"D"];

const MARKUP: [&[u8]; 24] = [
    b"<a>", b"</a>", b"<a/>", b"<!--", b"-->", b"<![CDATA[", b"]]>", b"<?", b"?>", b"<!DOCTYPE",
    b"<!", b"</", b"/>", b"<", b">", b"[", b"]", b"\"", b"'", b"-", b"x", b" ", b"&", b";",
];

#[test]
fn bound_covers_reader_on_well_formed_documents() {
    assert_eq!(reader_depth(b"<a><b></b><c/></a>"), 2);
    assert_eq!(nesting_of(b"<a><b></b><c/></a>"), 2);
    let docs: [&[u8]; 8] = [
        b"<?xml version=\"1.0\"?><rss version=\"2.0\"><channel><item><x:y a='>'/></item></channel></rss>",
        b"<a><![CDATA[<b><c>]]><d><!-- <e> --></d></a>",
        b"<!DOCTYPE a PUBLIC \"x>\" 'y>'><a><b><c/></b></a>",
        b"<!DOCTYPE a [<!ELEMENT a (b)> <!-- > --> ]><a><b/></a>",
        b"\xef\xbb\xbf<a><b></b></a>",
        b"<a>&amp;<b>&#60;</b>&lt;</a>",
        b"<a\n b = \"1\"\n><b\t/></a\n>",
        b"<a><b></b ></a >",
    ];
    for doc in docs {
        check(doc);
        assert!(reader_depth(doc) >= 1);
    }
}

#[test]
fn bound_is_exact_on_documents_that_it_follows() {
    let docs: [(&[u8], usize); 7] = [
        (b"<?xml version=\"1.0\"?><rss version=\"2.0\"><channel><item><x:y a='>'/></item></channel></rss>", 4),
        (b"<a><![CDATA[<b><c>]]><d><!-- <e> --></d></a>", 2),
        (b"<!DOCTYPE a PUBLIC \"x>\" 'y>'><a><b><c/></b></a>", 3),
        (b"\xef\xbb\xbf<a><b></b></a>", 2),
        (b"<a>&amp;<b>&#60;</b>&lt;</a>", 2),
        (b"<a\n b = \"1\"\n><b\t/></a\n>", 2),
        (b"<a><b></b ></a >", 2),
    ];
    for (doc, depth) in docs {
        assert_eq!(reader_depth(doc), depth);
        assert_eq!(nesting_of(doc), depth);
    }
}

#[test]
fn bound_covers_reader_on_every_short_sequence_of_bytes() {
    check_all(&BYTES, 5);
}

#[test]
fn bound_covers_reader_on_every_short_sequence_of_markup() {
    check_all(&MARKUP, 4);
}

#[test]
fn bound_covers_reader_on_long_sequences_of_bytes() {
    check_some(&BYTES, 40, 150_000, 1);
}

#[test]
fn bound_covers_reader_on_long_sequences_of_markup() {
    check_some(&MARKUP, 30, 150_000, 2);
}

#[test]
fn bound_covers_reader_on_long_sequences_of_tags() {
    let tags: [&[u8]; 8] = [b"<a>", b"</a>", b"<a/>", b"<!--x-->", b"<![CDATA[<a>]]>", b"<?p?>", b"t", b"<a b=\">\">"];
    check_some(&tags, 60, 150_000, 3);
    check_all(&tags, 5);
}
