use vstd::prelude::*;

verus! {

/// The deepest nesting of elements that a channel may have to be read.
pub const NESTING_LIMIT: usize = 128;

/// `<`
pub const LT: u8 = 60;

/// `>`
pub const GT: u8 = 62;

/// `/`
pub const SLASH: u8 = 47;

/// `!`
pub const BANG: u8 = 33;

/// `?`
pub const QUESTION: u8 = 63;

/// `-`
pub const DASH: u8 = 45;

/// `[`
pub const BRACKET: u8 = 91;

/// `]`
pub const BRACKET_END: u8 = 93;

/// `'`
pub const APOSTROPHE: u8 = 39;

/// `"`
pub const QUOTE: u8 = 34;

/// What the bytes read last belong to.
#[derive(Debug, Clone, Copy, PartialEq, Eq, Structural)]
pub enum Mode {
    /// Text between markup.
    Text,
    /// A `<` was read; the next byte says what it opens.
    Open,
    /// A tag that opens an element.
    StartTag,
    /// A tag that closes an element.
    EndTag,
    /// A processing instruction, up to `?>`.
    Instruction,
    /// `<!` was read; the next byte says what it opens.
    Declaration,
    /// A character data section, up to `]]>`.
    CharData,
    /// A comment, up to `-->`.
    Comment,
    /// Markup whose end is not followed: from here on every `<` counts as
    /// an element that opens, and nothing counts as one that closes.
    Flood,
}

/// Whether the bytes of a tag stand inside a quoted value.
#[derive(Debug, Clone, Copy, PartialEq, Eq, Structural)]
pub enum Quoting {
    Outside,
    Single,
    Double,
}

/// The state of a scan over the bytes of a channel.
pub struct Scan {
    pub mode: Mode,
    pub quoting: Quoting,
    /// Inside a comment: how far the next byte is from the `<` that opened
    /// it.
    pub since: nat,
    /// The byte read last inside the markup, and the one before it.
    pub last: u8,
    pub before_last: u8,
    /// How many elements are open, as far as the scan can tell: never fewer
    /// than truly are.
    pub depth: nat,
    /// The greatest depth met so far.
    pub peak: nat,
}

/// The scan before the first byte.
pub open spec fn start() -> Scan {
    Scan {
        mode: Mode::Text,
        quoting: Quoting::Outside,
        since: 0,
        last: 0,
        before_last: 0,
        depth: 0,
        peak: 0,
    }
}

/// The scan in another mode, at the first byte of what that mode reads.
pub open spec fn entered(s: Scan, mode: Mode, first: u8) -> Scan {
    Scan {
        mode,
        quoting: Quoting::Outside,
        since: if mode == Mode::Comment {
            3
        } else {
            0
        },
        last: first,
        before_last: 0,
        depth: s.depth,
        peak: s.peak,
    }
}

/// The scan one byte further inside the same markup.
pub open spec fn moved_on(s: Scan, quoting: Quoting, b: u8) -> Scan {
    Scan {
        mode: s.mode,
        quoting,
        since: s.since + 1,
        last: b,
        before_last: s.last,
        depth: s.depth,
        peak: s.peak,
    }
}

/// The scan back in text, with the depth given.
pub open spec fn in_text(s: Scan, depth: nat) -> Scan {
    Scan {
        mode: Mode::Text,
        quoting: Quoting::Outside,
        since: 0,
        last: 0,
        before_last: 0,
        depth,
        peak: s.peak,
    }
}

/// The scan with one more element open.
pub open spec fn raised(s: Scan) -> Scan {
    Scan {
        mode: s.mode,
        quoting: s.quoting,
        since: s.since,
        last: s.last,
        before_last: s.before_last,
        depth: s.depth + 1,
        peak: if s.peak > s.depth {
            s.peak
        } else {
            s.depth + 1
        },
    }
}

/// The depth with one element closed, where one is open.
pub open spec fn lowered(depth: nat) -> nat {
    if depth > 0 {
        (depth - 1) as nat
    } else {
        0
    }
}

/// The scan after a byte of a tag. A tag ends at the first `>` outside a
/// quoted value. A tag that closes an element lowers the depth, and so does
/// a tag that opens one and ends in `/>`: it closes what it opens.
pub open spec fn in_tag(s: Scan, b: u8) -> Scan {
    match s.quoting {
        Quoting::Outside => if b == GT {
            if s.mode == Mode::EndTag || s.last == SLASH {
                in_text(s, lowered(s.depth))
            } else {
                in_text(s, s.depth)
            }
        } else if b == APOSTROPHE {
            moved_on(s, Quoting::Single, b)
        } else if b == QUOTE {
            moved_on(s, Quoting::Double, b)
        } else {
            moved_on(s, Quoting::Outside, b)
        },
        Quoting::Single => if b == APOSTROPHE {
            moved_on(s, Quoting::Outside, b)
        } else {
            moved_on(s, Quoting::Single, b)
        },
        Quoting::Double => if b == QUOTE {
            moved_on(s, Quoting::Outside, b)
        } else {
            moved_on(s, Quoting::Double, b)
        },
    }
}

/// The scan after one more byte.
pub open spec fn step(s: Scan, b: u8) -> Scan {
    match s.mode {
        Mode::Flood => if b == LT {
            raised(s)
        } else {
            s
        },
        Mode::Text => if b == LT {
            entered(s, Mode::Open, 0)
        } else {
            s
        },
        Mode::Open => if b == BANG {
            entered(s, Mode::Declaration, 0)
        } else if b == SLASH {
            entered(s, Mode::EndTag, 0)
        } else if b == QUESTION {
            entered(s, Mode::Instruction, b)
        } else {
            in_tag(raised(entered(s, Mode::StartTag, 0)), b)
        },
        Mode::Declaration => if b == BRACKET {
            entered(s, Mode::CharData, b)
        } else if b == DASH {
            entered(s, Mode::Comment, b)
        } else {
            entered(s, Mode::Flood, 0)
        },
        Mode::StartTag => in_tag(s, b),
        Mode::EndTag => in_tag(s, b),
        Mode::Instruction => if b == GT && s.last == QUESTION {
            in_text(s, s.depth)
        } else {
            moved_on(s, Quoting::Outside, b)
        },
        Mode::CharData => if b == GT && s.last == BRACKET_END && s.before_last == BRACKET_END {
            in_text(s, s.depth)
        } else {
            moved_on(s, Quoting::Outside, b)
        },
        Mode::Comment => if b == GT && s.since >= 6 && s.last == DASH && s.before_last == DASH {
            in_text(s, s.depth)
        } else {
            moved_on(s, Quoting::Outside, b)
        },
    }
}

/// The scan after all of `content`.
pub open spec fn scan(content: Seq<u8>) -> Scan
    decreases content.len(),
{
    if content.len() == 0 {
        start()
    } else {
        step(scan(content.drop_last()), content.last())
    }
}

/// A bound on how deeply the elements of `content` are nested: the
/// greatest depth that a scan of the bytes meets. The scan counts every
/// tag that opens an element, and counts a tag as closing one only where
/// it is sure of it, so the bound may be too great and is never too small.
pub open spec fn nesting_bound(content: Seq<u8>) -> nat {
    scan(content).peak
}

proof fn lemma_scan_is_bounded(content: Seq<u8>)
    ensures
        scan(content).depth <= content.len(),
        scan(content).peak <= content.len(),
        scan(content).depth <= scan(content).peak,
        scan(content).since <= content.len(),
        scan(content).mode == Mode::Open ==> content.len() >= 1,
        scan(content).mode == Mode::Declaration ==> content.len() >= 2,
    decreases content.len(),
{
    if content.len() > 0 {
        lemma_scan_is_bounded(content.drop_last());
    }
}

/// The state of a scan, as it is held while the bytes are read.
struct Reading {
    mode: Mode,
    quoting: Quoting,
    since: usize,
    last: u8,
    before_last: u8,
    depth: usize,
    peak: usize,
}

impl View for Reading {
    type V = Scan;

    closed spec fn view(&self) -> Scan {
        Scan {
            mode: self.mode,
            quoting: self.quoting,
            since: self.since as nat,
            last: self.last,
            before_last: self.before_last,
            depth: self.depth as nat,
            peak: self.peak as nat,
        }
    }
}

fn enter(s: &Reading, mode: Mode, first: u8) -> (next: Reading)
    ensures
        next@ == entered(s@, mode, first),
{
    Reading {
        mode,
        quoting: Quoting::Outside,
        since: if mode == Mode::Comment {
            3
        } else {
            0
        },
        last: first,
        before_last: 0,
        depth: s.depth,
        peak: s.peak,
    }
}

fn move_on(s: &Reading, quoting: Quoting, b: u8) -> (next: Reading)
    requires
        s.since < usize::MAX,
    ensures
        next@ == moved_on(s@, quoting, b),
{
    Reading {
        mode: s.mode,
        quoting,
        since: s.since + 1,
        last: b,
        before_last: s.last,
        depth: s.depth,
        peak: s.peak,
    }
}

fn to_text(s: &Reading, depth: usize) -> (next: Reading)
    ensures
        next@ == in_text(s@, depth as nat),
{
    Reading {
        mode: Mode::Text,
        quoting: Quoting::Outside,
        since: 0,
        last: 0,
        before_last: 0,
        depth,
        peak: s.peak,
    }
}

fn raise(s: &Reading) -> (next: Reading)
    requires
        s.depth < usize::MAX,
    ensures
        next@ == raised(s@),
{
    Reading {
        mode: s.mode,
        quoting: s.quoting,
        since: s.since,
        last: s.last,
        before_last: s.before_last,
        depth: s.depth + 1,
        peak: if s.peak > s.depth {
            s.peak
        } else {
            s.depth + 1
        },
    }
}

fn lower(depth: usize) -> (less: usize)
    ensures
        less == lowered(depth as nat),
{
    if depth > 0 {
        depth - 1
    } else {
        0
    }
}

fn tag_byte(s: &Reading, b: u8) -> (next: Reading)
    requires
        s.since < usize::MAX,
    ensures
        next@ == in_tag(s@, b),
{
    match s.quoting {
        Quoting::Outside => if b == GT {
            if s.mode == Mode::EndTag || s.last == SLASH {
                to_text(s, lower(s.depth))
            } else {
                to_text(s, s.depth)
            }
        } else if b == APOSTROPHE {
            move_on(s, Quoting::Single, b)
        } else if b == QUOTE {
            move_on(s, Quoting::Double, b)
        } else {
            move_on(s, Quoting::Outside, b)
        },
        Quoting::Single => if b == APOSTROPHE {
            move_on(s, Quoting::Outside, b)
        } else {
            move_on(s, Quoting::Single, b)
        },
        Quoting::Double => if b == QUOTE {
            move_on(s, Quoting::Outside, b)
        } else {
            move_on(s, Quoting::Double, b)
        },
    }
}

fn next_byte(s: &Reading, b: u8) -> (next: Reading)
    requires
        s.since < usize::MAX,
        s.depth < usize::MAX,
    ensures
        next@ == step(s@, b),
{
    match s.mode {
        Mode::Flood => if b == LT {
            raise(s)
        } else {
            to_same(s)
        },
        Mode::Text => if b == LT {
            enter(s, Mode::Open, 0)
        } else {
            to_same(s)
        },
        Mode::Open => if b == BANG {
            enter(s, Mode::Declaration, 0)
        } else if b == SLASH {
            enter(s, Mode::EndTag, 0)
        } else if b == QUESTION {
            enter(s, Mode::Instruction, b)
        } else {
            tag_byte(&raise(&enter(s, Mode::StartTag, 0)), b)
        },
        Mode::Declaration => if b == BRACKET {
            enter(s, Mode::CharData, b)
        } else if b == DASH {
            enter(s, Mode::Comment, b)
        } else {
            enter(s, Mode::Flood, 0)
        },
        Mode::StartTag => tag_byte(s, b),
        Mode::EndTag => tag_byte(s, b),
        Mode::Instruction => if b == GT && s.last == QUESTION {
            to_text(s, s.depth)
        } else {
            move_on(s, Quoting::Outside, b)
        },
        Mode::CharData => if b == GT && s.last == BRACKET_END && s.before_last == BRACKET_END {
            to_text(s, s.depth)
        } else {
            move_on(s, Quoting::Outside, b)
        },
        Mode::Comment => if b == GT && s.since >= 6 && s.last == DASH && s.before_last == DASH {
            to_text(s, s.depth)
        } else {
            move_on(s, Quoting::Outside, b)
        },
    }
}

fn to_same(s: &Reading) -> (next: Reading)
    ensures
        next@ == s@,
{
    Reading {
        mode: s.mode,
        quoting: s.quoting,
        since: s.since,
        last: s.last,
        before_last: s.before_last,
        depth: s.depth,
        peak: s.peak,
    }
}

/// Scans the bytes of a channel and gives the bound on the nesting of its
/// elements.
pub fn nesting(content: &[u8]) -> (bound: usize)
    ensures
        bound == nesting_bound(content@),
{
    let mut s = Reading {
        mode: Mode::Text,
        quoting: Quoting::Outside,
        since: 0,
        last: 0,
        before_last: 0,
        depth: 0,
        peak: 0,
    };
    let mut i: usize = 0;
    assert(content@.take(0) =~= Seq::<u8>::empty());
    while i < content.len()
        invariant
            i <= content.len(),
            s@ == scan(content@.take(i as int)),
        decreases content.len() - i,
    {
        proof {
            lemma_scan_is_bounded(content@.take(i as int));
            assert(content@.take(i + 1).drop_last() =~= content@.take(i as int));
            assert(content@.take(i + 1).last() == content@[i as int]);
        }
        s = next_byte(&s, content[i]);
        i = i + 1;
    }
    assert(content@.take(i as int) =~= content@);
    s.peak
}

} // verus!
