//! How deeply the elements of a document can be nested: a bound that is
//! computed from the bytes alone, before a parser sees them.
//!
//! The bytes are read once, from left to right, by a small machine that
//! follows the markup of a document: text up to a `<`, start and end tags up
//! to a `>` outside quotes, comments up to `-->`, character data sections
//! up to `]]>`, processing instructions up to `?>`, and a document type
//! declaration without internal subset up to a `>` outside quotes. A start
//! tag opens an element and an end tag closes one. Whatever the machine does
//! not follow (an internal subset, any other `<!`) makes it stop closing:
//! from there on it takes every `<` that could begin a start tag for one
//! that opens an element and never closes any, so that what it counts can
//! only be too high.

use vstd::prelude::*;

verus! {

pub const LESS_THAN: u8 = 0x3c;

pub const GREATER_THAN: u8 = 0x3e;

pub const SLASH: u8 = 0x2f;

pub const BANG: u8 = 0x21;

pub const QUESTION: u8 = 0x3f;

pub const DASH: u8 = 0x2d;

pub const BRACKET_OPEN: u8 = 0x5b;

pub const BRACKET_CLOSE: u8 = 0x5d;

pub const APOSTROPHE: u8 = 0x27;

pub const QUOTATION: u8 = 0x22;

/// Where a tag stands with respect to quoted regions: a `>` ends the tag
/// only outside of them.
#[derive(Clone, Copy, Debug, PartialEq, Eq, Structural)]
pub enum Quote {
    Outside,
    Single,
    Double,
}

/// What the machine is reading.
#[derive(Clone, Copy, Debug, PartialEq, Eq, Structural)]
pub enum Markup {
    /// Text between markup.
    Text,
    /// A `<` was read.
    Open,
    /// A start tag; `slash` says whether the last byte was a `/` outside
    /// quotes, so that a `>` now would end an empty element.
    StartTag { quote: Quote, slash: bool },
    /// An end tag.
    EndTag { quote: Quote },
    /// `<!` was read.
    Declaration,
    /// `<!-` was read.
    CommentOpen,
    /// A comment. `lead` counts the bytes that must still follow before a
    /// `>` can end it, `dashes` the dashes that the last bytes were, up to 2.
    Comment { lead: u8, dashes: u8 },
    /// `<![` and the first `matched` bytes of `CDATA[` were read.
    SectionOpen { matched: u8 },
    /// A character data section. `brackets` counts the `]` that the last
    /// bytes were, up to 2.
    Section { brackets: u8 },
    /// A processing instruction; `question` says whether the last byte was
    /// a `?`.
    Instruction { question: bool },
    /// A document type declaration, before any internal subset.
    Doctype { quote: Quote },
    /// Markup that the machine does not follow; `open` says whether the last
    /// byte was a `<`.
    Unknown { open: bool },
}

/// What a byte does to the open elements.
#[derive(Clone, Copy, Debug, PartialEq, Eq, Structural)]
pub enum Effect {
    /// Nothing.
    Nothing,
    /// It ends a start tag: one more element is open.
    Opened,
    /// It ends the tag of an empty element, which is opened and closed.
    Emptied,
    /// It ends an end tag: the innermost open element is closed.
    Closed,
}

/// The quoted region that a tag is in after `byte`.
pub open spec fn quote_after(quote: Quote, byte: u8) -> Quote {
    match quote {
        Quote::Outside => if byte == APOSTROPHE {
            Quote::Single
        } else if byte == QUOTATION {
            Quote::Double
        } else {
            Quote::Outside
        },
        Quote::Single => if byte == APOSTROPHE {
            Quote::Outside
        } else {
            Quote::Single
        },
        Quote::Double => if byte == QUOTATION {
            Quote::Outside
        } else {
            Quote::Double
        },
    }
}

/// The byte of `CDATA[` at position `at`.
pub open spec fn section_byte(at: u8) -> u8 {
    if at == 0 {
        0x43
    } else if at == 1 {
        0x44
    } else if at == 2 {
        0x41
    } else if at == 3 {
        0x54
    } else if at == 4 {
        0x41
    } else {
        BRACKET_OPEN
    }
}

/// A counter of trailing bytes of one kind, up to 2.
pub open spec fn run_after(run: u8, same: bool) -> u8 {
    if !same {
        0
    } else if run == 0 {
        1
    } else {
        2
    }
}

/// What the machine reads after `byte`, and what the byte does to the open
/// elements.
pub open spec fn after_byte(mode: Markup, byte: u8) -> (Markup, Effect) {
    match mode {
        Markup::Text => if byte == LESS_THAN {
            (Markup::Open, Effect::Nothing)
        } else {
            (Markup::Text, Effect::Nothing)
        },
        Markup::Open => if byte == SLASH {
            (Markup::EndTag { quote: Quote::Outside }, Effect::Nothing)
        } else if byte == BANG {
            (Markup::Declaration, Effect::Nothing)
        } else if byte == QUESTION {
            (Markup::Instruction { question: true }, Effect::Nothing)
        } else if byte == GREATER_THAN {
            (Markup::Text, Effect::Opened)
        } else {
            (
                Markup::StartTag { quote: quote_after(Quote::Outside, byte), slash: false },
                Effect::Nothing,
            )
        },
        Markup::StartTag { quote, slash } => if quote == Quote::Outside && byte == GREATER_THAN {
            (
                Markup::Text,
                if slash {
                    Effect::Emptied
                } else {
                    Effect::Opened
                },
            )
        } else {
            (
                Markup::StartTag { quote: quote_after(quote, byte), slash: byte == SLASH },
                Effect::Nothing,
            )
        },
        Markup::EndTag { quote } => if quote == Quote::Outside && byte == GREATER_THAN {
            (Markup::Text, Effect::Closed)
        } else {
            (Markup::EndTag { quote: quote_after(quote, byte) }, Effect::Nothing)
        },
        Markup::Declaration => if byte == DASH {
            (Markup::CommentOpen, Effect::Nothing)
        } else if byte == BRACKET_OPEN {
            (Markup::SectionOpen { matched: 0 }, Effect::Nothing)
        } else if byte == 0x44 || byte == 0x64 {
            (Markup::Doctype { quote: Quote::Outside }, Effect::Nothing)
        } else {
            (Markup::Unknown { open: byte == LESS_THAN }, Effect::Nothing)
        },
        Markup::CommentOpen => if byte == DASH {
            (Markup::Comment { lead: 2, dashes: 2 }, Effect::Nothing)
        } else {
            (Markup::Unknown { open: byte == LESS_THAN }, Effect::Nothing)
        },
        Markup::Comment { lead, dashes } => if byte == GREATER_THAN && lead == 0 && dashes >= 2 {
            (Markup::Text, Effect::Nothing)
        } else {
            (
                Markup::Comment {
                    lead: if lead >= 2 {
                        1
                    } else {
                        0
                    },
                    dashes: run_after(dashes, byte == DASH),
                },
                Effect::Nothing,
            )
        },
        Markup::SectionOpen { matched } => if byte != section_byte(matched) {
            (Markup::Unknown { open: byte == LESS_THAN }, Effect::Nothing)
        } else if matched >= 5 {
            (Markup::Section { brackets: 0 }, Effect::Nothing)
        } else {
            (Markup::SectionOpen { matched: (matched + 1) as u8 }, Effect::Nothing)
        },
        Markup::Section { brackets } => if byte == GREATER_THAN && brackets >= 2 {
            (Markup::Text, Effect::Nothing)
        } else {
            (Markup::Section { brackets: run_after(brackets, byte == BRACKET_CLOSE) }, Effect::Nothing)
        },
        Markup::Instruction { question } => if byte == GREATER_THAN && question {
            (Markup::Text, Effect::Nothing)
        } else {
            (Markup::Instruction { question: byte == QUESTION }, Effect::Nothing)
        },
        Markup::Doctype { quote } => if quote == Quote::Outside && byte == GREATER_THAN {
            (Markup::Text, Effect::Nothing)
        } else if quote == Quote::Outside && byte == BRACKET_OPEN {
            (Markup::Unknown { open: false }, Effect::Nothing)
        } else {
            (Markup::Doctype { quote: quote_after(quote, byte) }, Effect::Nothing)
        },
        Markup::Unknown { open } => (
            Markup::Unknown { open: byte == LESS_THAN },
            if open && byte != SLASH && byte != BANG && byte != QUESTION {
                Effect::Opened
            } else {
                Effect::Nothing
            },
        ),
    }
}

/// What the machine knows after a run of bytes: what it is reading, how
/// many elements are open, and the most that were open at once.
pub ghost struct Nesting {
    pub mode: Markup,
    pub depth: nat,
    pub peak: nat,
}

/// The greater of two numbers.
pub open spec fn greater(a: nat, b: nat) -> nat {
    if a >= b {
        a
    } else {
        b
    }
}

/// What the machine knows after one more byte.
pub open spec fn applied(before: Nesting, byte: u8) -> Nesting {
    let (mode, effect) = after_byte(before.mode, byte);
    match effect {
        Effect::Nothing => Nesting { mode, ..before },
        Effect::Opened => Nesting {
            mode,
            depth: before.depth + 1,
            peak: greater(before.peak, before.depth + 1),
        },
        Effect::Emptied => Nesting {
            mode,
            depth: before.depth,
            peak: greater(before.peak, before.depth + 1),
        },
        Effect::Closed => Nesting {
            mode,
            depth: if before.depth > 0 {
                (before.depth - 1) as nat
            } else {
                0
            },
            peak: before.peak,
        },
    }
}

/// What the machine knows after it has read `bytes` from the start, in
/// text, with no element open.
pub open spec fn scanned(bytes: Seq<u8>) -> Nesting
    decreases bytes.len(),
{
    if bytes.len() == 0 {
        Nesting { mode: Markup::Text, depth: 0, peak: 0 }
    } else {
        applied(scanned(bytes.drop_last()), bytes.last())
    }
}

/// The most elements that the machine finds open at once in `bytes`.
pub open spec fn nesting_bound(bytes: Seq<u8>) -> nat {
    scanned(bytes).peak
}

/// Reading one byte more applies that byte to what was known before.
pub proof fn lemma_scanned_next(bytes: Seq<u8>, i: int)
    requires
        0 <= i < bytes.len(),
    ensures
        scanned(bytes.take(i + 1)) == applied(scanned(bytes.take(i)), bytes[i]),
{
    assert(bytes.take(i + 1).drop_last() =~= bytes.take(i));
}

/// The bound never falls when bytes are added, and it is at most the number
/// of bytes; the number of open elements is at most the bound.
pub proof fn lemma_bound_grows(bytes: Seq<u8>, i: int)
    requires
        0 <= i <= bytes.len(),
    ensures
        nesting_bound(bytes.take(i)) <= nesting_bound(bytes),
        scanned(bytes).depth <= nesting_bound(bytes) <= bytes.len(),
    decreases bytes.len(),
{
    if bytes.len() > 0 {
        let shorter = bytes.drop_last();
        if i < bytes.len() {
            lemma_bound_grows(shorter, i);
            assert(shorter.take(i) =~= bytes.take(i));
        } else {
            lemma_bound_grows(shorter, shorter.len() as int);
            assert(bytes.take(i) =~= bytes);
        }
    } else {
        assert(bytes.take(i) =~= bytes);
    }
}

/// The quoted region that a tag is in after `byte`.
pub fn quote_next(quote: Quote, byte: u8) -> (next: Quote)
    ensures
        next == quote_after(quote, byte),
{
    match quote {
        Quote::Outside => if byte == APOSTROPHE {
            Quote::Single
        } else if byte == QUOTATION {
            Quote::Double
        } else {
            Quote::Outside
        },
        Quote::Single => if byte == APOSTROPHE {
            Quote::Outside
        } else {
            Quote::Single
        },
        Quote::Double => if byte == QUOTATION {
            Quote::Outside
        } else {
            Quote::Double
        },
    }
}

/// Counts one more trailing byte of a kind, up to 2, or starts again.
pub fn run_next(run: u8, same: bool) -> (next: u8)
    ensures
        next == run_after(run, same),
{
    if !same {
        0
    } else if run == 0 {
        1
    } else {
        2
    }
}

/// Reads one byte: what the machine reads afterwards, and what the byte
/// does to the open elements.
pub fn advance(mode: Markup, byte: u8) -> (next: (Markup, Effect))
    ensures
        next == after_byte(mode, byte),
{
    match mode {
        Markup::Text => if byte == LESS_THAN {
            (Markup::Open, Effect::Nothing)
        } else {
            (Markup::Text, Effect::Nothing)
        },
        Markup::Open => if byte == SLASH {
            (Markup::EndTag { quote: Quote::Outside }, Effect::Nothing)
        } else if byte == BANG {
            (Markup::Declaration, Effect::Nothing)
        } else if byte == QUESTION {
            (Markup::Instruction { question: true }, Effect::Nothing)
        } else if byte == GREATER_THAN {
            (Markup::Text, Effect::Opened)
        } else {
            (
                Markup::StartTag { quote: quote_next(Quote::Outside, byte), slash: false },
                Effect::Nothing,
            )
        },
        Markup::StartTag { quote, slash } => {
            let outside = match quote {
                Quote::Outside => true,
                _ => false,
            };
            if outside && byte == GREATER_THAN {
                (
                    Markup::Text,
                    if slash {
                        Effect::Emptied
                    } else {
                        Effect::Opened
                    },
                )
            } else {
                (
                    Markup::StartTag { quote: quote_next(quote, byte), slash: byte == SLASH },
                    Effect::Nothing,
                )
            }
        },
        Markup::EndTag { quote } => {
            let outside = match quote {
                Quote::Outside => true,
                _ => false,
            };
            if outside && byte == GREATER_THAN {
                (Markup::Text, Effect::Closed)
            } else {
                (Markup::EndTag { quote: quote_next(quote, byte) }, Effect::Nothing)
            }
        },
        Markup::Declaration => if byte == DASH {
            (Markup::CommentOpen, Effect::Nothing)
        } else if byte == BRACKET_OPEN {
            (Markup::SectionOpen { matched: 0 }, Effect::Nothing)
        } else if byte == 0x44 || byte == 0x64 {
            (Markup::Doctype { quote: Quote::Outside }, Effect::Nothing)
        } else {
            (Markup::Unknown { open: byte == LESS_THAN }, Effect::Nothing)
        },
        Markup::CommentOpen => if byte == DASH {
            (Markup::Comment { lead: 2, dashes: 2 }, Effect::Nothing)
        } else {
            (Markup::Unknown { open: byte == LESS_THAN }, Effect::Nothing)
        },
        Markup::Comment { lead, dashes } => if byte == GREATER_THAN && lead == 0 && dashes >= 2 {
            (Markup::Text, Effect::Nothing)
        } else {
            let lead: u8 = if lead >= 2 {
                1
            } else {
                0
            };
            (Markup::Comment { lead, dashes: run_next(dashes, byte == DASH) }, Effect::Nothing)
        },
        Markup::SectionOpen { matched } => {
            let expected: u8 = if matched == 0 {
                0x43
            } else if matched == 1 {
                0x44
            } else if matched == 2 {
                0x41
            } else if matched == 3 {
                0x54
            } else if matched == 4 {
                0x41
            } else {
                BRACKET_OPEN
            };
            if byte != expected {
                (Markup::Unknown { open: byte == LESS_THAN }, Effect::Nothing)
            } else if matched >= 5 {
                (Markup::Section { brackets: 0 }, Effect::Nothing)
            } else {
                (Markup::SectionOpen { matched: matched + 1 }, Effect::Nothing)
            }
        },
        Markup::Section { brackets } => if byte == GREATER_THAN && brackets >= 2 {
            (Markup::Text, Effect::Nothing)
        } else {
            (Markup::Section { brackets: run_next(brackets, byte == BRACKET_CLOSE) }, Effect::Nothing)
        },
        Markup::Instruction { question } => if byte == GREATER_THAN && question {
            (Markup::Text, Effect::Nothing)
        } else {
            (Markup::Instruction { question: byte == QUESTION }, Effect::Nothing)
        },
        Markup::Doctype { quote } => {
            let outside = match quote {
                Quote::Outside => true,
                _ => false,
            };
            if outside && byte == GREATER_THAN {
                (Markup::Text, Effect::Nothing)
            } else if outside && byte == BRACKET_OPEN {
                (Markup::Unknown { open: false }, Effect::Nothing)
            } else {
                (Markup::Doctype { quote: quote_next(quote, byte) }, Effect::Nothing)
            }
        },
        Markup::Unknown { open } => {
            let effect = if open && byte != SLASH && byte != BANG && byte != QUESTION {
                Effect::Opened
            } else {
                Effect::Nothing
            };
            (Markup::Unknown { open: byte == LESS_THAN }, effect)
        },
    }
}

/// Computes the bound: the most elements that the machine finds open at
/// once when it reads `bytes` from the start.
pub fn nesting_of(bytes: &[u8]) -> (bound: usize)
    ensures
        bound == nesting_bound(bytes@),
{
    let mut mode = Markup::Text;
    let mut depth: usize = 0;
    let mut peak: usize = 0;
    let mut i: usize = 0;
    assert(bytes@.take(0) =~= Seq::<u8>::empty());
    while i < bytes.len()
        invariant
            i <= bytes.len(),
            depth <= i,
            peak <= i,
            scanned(bytes@.take(i as int)) == (Nesting {
                mode,
                depth: depth as nat,
                peak: peak as nat,
            }),
        decreases bytes.len() - i,
    {
        proof {
            lemma_scanned_next(bytes@, i as int);
        }
        let (next, effect) = advance(mode, bytes[i]);
        mode = next;
        match effect {
            Effect::Nothing => {},
            Effect::Opened => {
                depth += 1;
                if depth > peak {
                    peak = depth;
                }
            },
            Effect::Emptied => {
                if depth + 1 > peak {
                    peak = depth + 1;
                }
            },
            Effect::Closed => {
                if depth > 0 {
                    depth -= 1;
                }
            },
        }
        i += 1;
    }
    assert(bytes@.take(i as int) =~= bytes@);
    peak
}

} // verus!
