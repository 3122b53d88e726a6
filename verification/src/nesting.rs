use vstd::prelude::*;

verus! {

/// How deep the parts of a document may stand in one another for the
/// document to be handed to a reader that descends into them by recursion.
pub const MAX_NESTING: usize = 64;

/// What a scan of a bencoded document is in the middle of.
#[derive(Debug, Clone, Copy, PartialEq, Eq, Structural)]
pub enum BencodePart {
    /// Before an item, or before the end of a list or dictionary.
    Item,
    /// In a number, up to its closing `e`.
    Number,
    /// In the length that stands before a text.
    Length,
    /// In a text.
    Text,
}

/// Where a scan of a bencoded document stands.
#[derive(Debug, Clone, Copy, PartialEq, Eq, Structural)]
pub struct BencodeScan {
    pub part: BencodePart,
    /// How many lists and dictionaries are open.
    pub depth: usize,
    /// In a length, the length read so far; in a text, the bytes left of it.
    pub left: u64,
}

/// A length with one more digit, held at the greatest value where it would
/// pass it.
pub open spec fn longer(n: u64, digit: u8) -> u64 {
    if n > (u64::MAX - 9) / 10 {
        u64::MAX
    } else {
        (n * 10 + (digit - 48)) as u64
    }
}

/// The scan after one more byte; `None` where the byte cannot stand there,
/// closes what was not opened, or opens a list or dictionary beyond
/// `MAX_NESTING`. A list opens with `l`, a dictionary with `d`, and `e`
/// closes either; a number runs from `i` to `e`; a text is its length in
/// digits, a colon, and that many bytes.
pub open spec fn bencode_step(s: BencodeScan, c: u8) -> Option<BencodeScan> {
    match s.part {
        BencodePart::Item => if c == 108 || c == 100 {
            if s.depth < MAX_NESTING {
                Some(BencodeScan { depth: (s.depth + 1) as usize, ..s })
            } else {
                None
            }
        } else if c == 101 {
            if s.depth > 0 {
                Some(BencodeScan { depth: (s.depth - 1) as usize, ..s })
            } else {
                None
            }
        } else if c == 105 {
            Some(BencodeScan { part: BencodePart::Number, ..s })
        } else if 48 <= c <= 57 {
            Some(BencodeScan { part: BencodePart::Length, left: (c - 48) as u64, ..s })
        } else {
            None
        },
        BencodePart::Number => if c == 101 {
            Some(BencodeScan { part: BencodePart::Item, ..s })
        } else {
            Some(s)
        },
        BencodePart::Length => if 48 <= c <= 57 {
            Some(BencodeScan { left: longer(s.left, c), ..s })
        } else if c == 58 {
            if s.left == 0 {
                Some(BencodeScan { part: BencodePart::Item, ..s })
            } else {
                Some(BencodeScan { part: BencodePart::Text, ..s })
            }
        } else {
            None
        },
        BencodePart::Text => if s.left <= 1 {
            Some(BencodeScan { part: BencodePart::Item, left: 0, ..s })
        } else {
            Some(BencodeScan { left: (s.left - 1) as u64, ..s })
        },
    }
}

/// Whether the scan that stands at `s` before byte `i` gets through the
/// rest of the document.
pub open spec fn bencode_runs(bytes: Seq<u8>, i: int, s: BencodeScan) -> bool
    decreases bytes.len() - i,
{
    if i < 0 || i >= bytes.len() {
        true
    } else {
        match bencode_step(s, bytes[i]) {
            Some(next) => bencode_runs(bytes, i + 1, next),
            None => false,
        }
    }
}

/// Whether a bencoded document is made of what the scan knows, with lists
/// and dictionaries never more than `MAX_NESTING` deep.
pub open spec fn bencode_is_shallow(bytes: Seq<u8>) -> bool {
    bencode_runs(bytes, 0, BencodeScan { part: BencodePart::Item, depth: 0, left: 0 })
}

/// Takes one more byte into the scan.
pub fn step_bencode(s: BencodeScan, c: u8) -> (r: Option<BencodeScan>)
    ensures
        r == bencode_step(s, c),
{
    match s.part {
        BencodePart::Item => if c == 108 || c == 100 {
            if s.depth < MAX_NESTING {
                Some(BencodeScan { depth: s.depth + 1, ..s })
            } else {
                None
            }
        } else if c == 101 {
            if s.depth > 0 {
                Some(BencodeScan { depth: s.depth - 1, ..s })
            } else {
                None
            }
        } else if c == 105 {
            Some(BencodeScan { part: BencodePart::Number, ..s })
        } else if 48 <= c && c <= 57 {
            Some(BencodeScan { part: BencodePart::Length, left: (c - 48) as u64, ..s })
        } else {
            None
        },
        BencodePart::Number => if c == 101 {
            Some(BencodeScan { part: BencodePart::Item, ..s })
        } else {
            Some(s)
        },
        BencodePart::Length => if 48 <= c && c <= 57 {
            let left: u64 = if s.left > (u64::MAX - 9) / 10 {
                u64::MAX
            } else {
                s.left * 10 + (c - 48) as u64
            };
            Some(BencodeScan { left, ..s })
        } else if c == 58 {
            if s.left == 0 {
                Some(BencodeScan { part: BencodePart::Item, ..s })
            } else {
                Some(BencodeScan { part: BencodePart::Text, ..s })
            }
        } else {
            None
        },
        BencodePart::Text => if s.left <= 1 {
            Some(BencodeScan { part: BencodePart::Item, left: 0, ..s })
        } else {
            Some(BencodeScan { left: s.left - 1, ..s })
        },
    }
}

/// Whether a bencoded document is made of what the scan knows, with lists
/// and dictionaries never more than `MAX_NESTING` deep.
pub fn is_shallow_bencode(bytes: &[u8]) -> (r: bool)
    ensures
        r == bencode_is_shallow(bytes@),
{
    let mut s = BencodeScan { part: BencodePart::Item, depth: 0, left: 0 };
    let mut i: usize = 0;
    while i < bytes.len()
        invariant
            i <= bytes.len(),
            bencode_is_shallow(bytes@) == bencode_runs(bytes@, i as int, s),
        decreases bytes.len() - i,
    {
        match step_bencode(s, bytes[i]) {
            Some(next) => {
                s = next;
            },
            None => {
                return false;
            },
        }
        i += 1;
    }
    true
}

/// What a scan of a marked-up document is in the middle of.
#[derive(Debug, Clone, Copy, PartialEq, Eq, Structural)]
pub enum MarkupPart {
    /// In text, up to the next `<`.
    Text,
    /// Right after `<`.
    Open,
    /// Right after `<!`.
    Bang,
    /// In a comment, up to `-->`.
    Comment,
    /// In a literal section, up to `]]>`.
    Literal,
    /// In a processing instruction, up to `?>`.
    Instruction,
    /// In the tag that opens an element, up to `>` outside of quotes.
    Tag,
    /// In the tag that closes an element, up to `>` outside of quotes.
    Closing,
}

/// Where a scan of a marked-up document stands.
#[derive(Debug, Clone, Copy, PartialEq, Eq, Structural)]
pub struct MarkupScan {
    pub part: MarkupPart,
    /// How many elements are open.
    pub depth: usize,
    /// In a tag, the quote that is open, or 0.
    pub quote: u8,
    /// In a comment, how far the next byte is from the `<`, up to 6.
    pub at: u8,
    /// How many of the bytes that an end is made of came last: hyphens in a
    /// comment and closing brackets in a literal section, up to 2; a
    /// question mark in an instruction and a slash in a tag, up to 1.
    pub run: u8,
}

/// The scan at rest in text, with `depth` elements open.
pub open spec fn in_text(depth: usize) -> MarkupScan {
    MarkupScan { part: MarkupPart::Text, depth, quote: 0, at: 0, run: 0 }
}

/// The count of bytes that came last, with one more or starting over.
pub open spec fn run_on(run: u8, more: bool, most: u8) -> u8 {
    if !more {
        0
    } else if run < most {
        (run + 1) as u8
    } else {
        most
    }
}

/// The scan after one more byte; `None` where a declaration begins, an
/// element is closed that was not opened, or an element opens beyond
/// `MAX_NESTING`. An element that is closed in its own tag counts as
/// opened and closed again.
pub open spec fn markup_step(s: MarkupScan, c: u8) -> Option<MarkupScan> {
    match s.part {
        MarkupPart::Text => if c == 60 {
            Some(MarkupScan { part: MarkupPart::Open, ..s })
        } else {
            Some(s)
        },
        MarkupPart::Open => if c == 33 {
            Some(MarkupScan { part: MarkupPart::Bang, ..s })
        } else if c == 47 {
            Some(MarkupScan { part: MarkupPart::Closing, quote: 0, run: 0, ..s })
        } else if c == 63 {
            Some(MarkupScan { part: MarkupPart::Instruction, run: 1, ..s })
        } else if c == 62 {
            if s.depth < MAX_NESTING {
                Some(in_text((s.depth + 1) as usize))
            } else {
                None
            }
        } else if c == 34 || c == 39 {
            Some(MarkupScan { part: MarkupPart::Tag, quote: c, run: 0, ..s })
        } else {
            Some(MarkupScan { part: MarkupPart::Tag, quote: 0, run: 0, ..s })
        },
        MarkupPart::Bang => if c == 45 {
            Some(MarkupScan { part: MarkupPart::Comment, at: 3, run: 1, ..s })
        } else if c == 91 {
            Some(MarkupScan { part: MarkupPart::Literal, run: 0, ..s })
        } else {
            None
        },
        MarkupPart::Comment => if c == 62 && s.at >= 6 && s.run >= 2 {
            Some(in_text(s.depth))
        } else {
            Some(MarkupScan { at: run_on(s.at, true, 6), run: run_on(s.run, c == 45, 2), ..s })
        },
        MarkupPart::Literal => if c == 62 && s.run >= 2 {
            Some(in_text(s.depth))
        } else {
            Some(MarkupScan { run: run_on(s.run, c == 93, 2), ..s })
        },
        MarkupPart::Instruction => if c == 62 && s.run >= 1 {
            Some(in_text(s.depth))
        } else {
            Some(MarkupScan { run: run_on(s.run, c == 63, 1), ..s })
        },
        MarkupPart::Tag => if s.quote != 0 {
            if c == s.quote {
                Some(MarkupScan { quote: 0, run: 0, ..s })
            } else {
                Some(s)
            }
        } else if c == 62 {
            if s.depth >= MAX_NESTING {
                None
            } else if s.run >= 1 {
                Some(in_text(s.depth))
            } else {
                Some(in_text((s.depth + 1) as usize))
            }
        } else if c == 34 || c == 39 {
            Some(MarkupScan { quote: c, run: 0, ..s })
        } else {
            Some(MarkupScan { run: run_on(s.run, c == 47, 1), ..s })
        },
        MarkupPart::Closing => if s.quote != 0 {
            if c == s.quote {
                Some(MarkupScan { quote: 0, ..s })
            } else {
                Some(s)
            }
        } else if c == 62 {
            if s.depth > 0 {
                Some(in_text((s.depth - 1) as usize))
            } else {
                None
            }
        } else if c == 34 || c == 39 {
            Some(MarkupScan { quote: c, ..s })
        } else {
            Some(s)
        },
    }
}

/// Whether the scan that stands at `s` before byte `i` gets through the
/// rest of the document.
pub open spec fn markup_runs(bytes: Seq<u8>, i: int, s: MarkupScan) -> bool
    decreases bytes.len() - i,
{
    if i < 0 || i >= bytes.len() {
        true
    } else {
        match markup_step(s, bytes[i]) {
            Some(next) => markup_runs(bytes, i + 1, next),
            None => false,
        }
    }
}

/// Whether a marked-up document is made of text, comments, literal
/// sections, instructions and elements, with elements never more than
/// `MAX_NESTING` deep.
pub open spec fn markup_is_shallow(bytes: Seq<u8>) -> bool {
    markup_runs(bytes, 0, in_text(0))
}

fn run_after(run: u8, more: bool, most: u8) -> (r: u8)
    ensures
        r == run_on(run, more, most),
{
    if !more {
        0
    } else if run < most {
        run + 1
    } else {
        most
    }
}

fn text_at(depth: usize) -> (r: MarkupScan)
    ensures
        r == in_text(depth),
{
    MarkupScan { part: MarkupPart::Text, depth, quote: 0, at: 0, run: 0 }
}

/// Takes one more byte into the scan.
pub fn step_markup(s: MarkupScan, c: u8) -> (r: Option<MarkupScan>)
    ensures
        r == markup_step(s, c),
{
    match s.part {
        MarkupPart::Text => if c == 60 {
            Some(MarkupScan { part: MarkupPart::Open, ..s })
        } else {
            Some(s)
        },
        MarkupPart::Open => if c == 33 {
            Some(MarkupScan { part: MarkupPart::Bang, ..s })
        } else if c == 47 {
            Some(MarkupScan { part: MarkupPart::Closing, quote: 0, run: 0, ..s })
        } else if c == 63 {
            Some(MarkupScan { part: MarkupPart::Instruction, run: 1, ..s })
        } else if c == 62 {
            if s.depth < MAX_NESTING {
                Some(text_at(s.depth + 1))
            } else {
                None
            }
        } else if c == 34 || c == 39 {
            Some(MarkupScan { part: MarkupPart::Tag, quote: c, run: 0, ..s })
        } else {
            Some(MarkupScan { part: MarkupPart::Tag, quote: 0, run: 0, ..s })
        },
        MarkupPart::Bang => if c == 45 {
            Some(MarkupScan { part: MarkupPart::Comment, at: 3, run: 1, ..s })
        } else if c == 91 {
            Some(MarkupScan { part: MarkupPart::Literal, run: 0, ..s })
        } else {
            None
        },
        MarkupPart::Comment => if c == 62 && s.at >= 6 && s.run >= 2 {
            Some(text_at(s.depth))
        } else {
            let at = run_after(s.at, true, 6);
            Some(MarkupScan { at, run: run_after(s.run, c == 45, 2), ..s })
        },
        MarkupPart::Literal => if c == 62 && s.run >= 2 {
            Some(text_at(s.depth))
        } else {
            Some(MarkupScan { run: run_after(s.run, c == 93, 2), ..s })
        },
        MarkupPart::Instruction => if c == 62 && s.run >= 1 {
            Some(text_at(s.depth))
        } else {
            Some(MarkupScan { run: run_after(s.run, c == 63, 1), ..s })
        },
        MarkupPart::Tag => if s.quote != 0 {
            if c == s.quote {
                Some(MarkupScan { quote: 0, run: 0, ..s })
            } else {
                Some(s)
            }
        } else if c == 62 {
            if s.depth >= MAX_NESTING {
                None
            } else if s.run >= 1 {
                Some(text_at(s.depth))
            } else {
                Some(text_at(s.depth + 1))
            }
        } else if c == 34 || c == 39 {
            Some(MarkupScan { quote: c, run: 0, ..s })
        } else {
            Some(MarkupScan { run: run_after(s.run, c == 47, 1), ..s })
        },
        MarkupPart::Closing => if s.quote != 0 {
            if c == s.quote {
                Some(MarkupScan { quote: 0, ..s })
            } else {
                Some(s)
            }
        } else if c == 62 {
            if s.depth > 0 {
                Some(text_at(s.depth - 1))
            } else {
                None
            }
        } else if c == 34 || c == 39 {
            Some(MarkupScan { quote: c, ..s })
        } else {
            Some(s)
        },
    }
}

/// Whether a marked-up document is made of what the scan knows, with
/// elements never more than `MAX_NESTING` deep.
pub fn is_shallow_markup(bytes: &[u8]) -> (r: bool)
    ensures
        r == markup_is_shallow(bytes@),
{
    let mut s = text_at(0);
    let mut i: usize = 0;
    while i < bytes.len()
        invariant
            i <= bytes.len(),
            markup_is_shallow(bytes@) == markup_runs(bytes@, i as int, s),
        decreases bytes.len() - i,
    {
        match step_markup(s, bytes[i]) {
            Some(next) => {
                s = next;
            },
            None => {
                return false;
            },
        }
        i += 1;
    }
    true
}

} // verus!
