use vstd::prelude::*;
use vstd::string::StringSliceAdditionalSpecFns;
use vstd::utf8::{is_char_boundary, is_continuation_byte, valid_utf8};

verus! {

/// A position in a source text, counted in lines and columns from zero.
#[derive(Debug, Clone, Copy, PartialEq, Eq, Structural)]
pub struct Location {
    pub line: usize,
    pub column: usize,
}

impl Location {
    pub fn new(line: usize, column: usize) -> (r: Self)
        ensures
            r.line == line,
            r.column == column,
    {
        Location { line, column }
    }
}

/// A range of bytes in a source text, `start` included and `end` not.
#[derive(Debug, Clone, Copy, PartialEq, Eq, Structural)]
pub struct Span {
    pub start: usize,
    pub end: usize,
}

/// Whether a byte continues a character that an earlier byte began.
pub open spec fn continues(byte: u8) -> bool {
    0x80 <= byte < 0xC0
}

/// The line and column reached after the characters that begin within the
/// first `n` bytes: a line feed starts a new line at column 0, every other
/// character moves one column on.
pub open spec fn location_after(bytes: Seq<u8>, n: nat) -> (nat, nat)
    decreases n,
{
    if n == 0 {
        (0, 0)
    } else {
        let (line, column) = location_after(bytes, (n - 1) as nat);
        let byte = bytes[n - 1];
        if continues(byte) {
            (line, column)
        } else if byte == 0x0A {
            (line + 1, 0)
        } else {
            (line, column + 1)
        }
    }
}

/// Neither count exceeds the number of bytes looked at.
pub proof fn lemma_location_bounded(bytes: Seq<u8>, n: nat)
    ensures
        location_after(bytes, n).0 <= n,
        location_after(bytes, n).1 <= n,
    decreases n,
{
    if n > 0 {
        lemma_location_bounded(bytes, (n - 1) as nat);
    }
}

/// The location of the byte at `offset`; an offset beyond the text gives the
/// location of its end.
pub fn byte_offset_to_location(source: &str, offset: usize) -> (r: Location)
    ensures
        (r.line as nat, r.column as nat) == location_after(
            source.spec_bytes(),
            if offset <= source.spec_bytes().len() {
                offset as nat
            } else {
                source.spec_bytes().len()
            },
        ),
{
    let bytes = source.as_bytes();
    let limit: usize = if offset <= bytes.len() {
        offset
    } else {
        bytes.len()
    };
    let mut line: usize = 0;
    let mut column: usize = 0;
    let mut i: usize = 0;
    while i < limit
        invariant
            i <= limit <= bytes.len(),
            bytes@ == source.spec_bytes(),
            (line as nat, column as nat) == location_after(bytes@, i as nat),
            line <= i,
            column <= i,
        decreases limit - i,
    {
        let byte: u8 = bytes[i];
        if 0x80 <= byte && byte < 0xC0 {
        } else if byte == 0x0A {
            line = line + 1;
            column = 0;
        } else {
            column = column + 1;
        }
        i = i + 1;
    }
    Location { line, column }
}

impl Span {
    pub fn new(start: usize, end: usize) -> (r: Self)
        ensures
            r.start == start,
            r.end == end,
    {
        Span { start, end }
    }

    /// The smallest span that covers both.
    pub fn merge(self, other: Span) -> (r: Self)
        ensures
            r.start == if self.start <= other.start {
                self.start
            } else {
                other.start
            },
            r.end == if self.end >= other.end {
                self.end
            } else {
                other.end
            },
    {
        Span {
            start: if self.start <= other.start {
                self.start
            } else {
                other.start
            },
            end: if self.end >= other.end {
                self.end
            } else {
                other.end
            },
        }
    }

    /// The locations of the two ends of the span.
    pub fn to_location(&self, source: &str) -> (r: (Location, Location))
        ensures
            (r.0.line as nat, r.0.column as nat) == location_after(
                source.spec_bytes(),
                if self.start <= source.spec_bytes().len() {
                    self.start as nat
                } else {
                    source.spec_bytes().len()
                },
            ),
            (r.1.line as nat, r.1.column as nat) == location_after(
                source.spec_bytes(),
                if self.end <= source.spec_bytes().len() {
                    self.end as nat
                } else {
                    source.spec_bytes().len()
                },
            ),
    {
        let start = byte_offset_to_location(source, self.start);
        let end = byte_offset_to_location(source, self.end);
        (start, end)
    }

    /// Whether the span lies within `source` and cuts no character in two.
    pub open spec fn fits(&self, source: &str) -> bool {
        &&& self.start <= self.end <= source.spec_bytes().len()
        &&& is_char_boundary(source.spec_bytes(), self.start as int)
        &&& is_char_boundary(source.spec_bytes(), self.end as int)
    }

    /// The text that the span covers.
    pub fn text<'a>(&self, source: &'a str) -> (r: &'a str)
        requires
            self.fits(source),
        ensures
            r.spec_bytes() == source.spec_bytes().subrange(self.start as int, self.end as int),
    {
        broadcast use
            vstd::utf8::valid_utf8_split,
            vstd::utf8::encode_utf8_valid_utf8,
            vstd::utf8::is_char_boundary_iff_not_is_continuation_byte,
            vstd::utf8::is_char_boundary_start_end_of_seq,
        ;

        let ghost bytes = source.spec_bytes();
        let (head, _) = source.split_at(self.end);
        proof {
            let front = bytes.subrange(0, self.end as int);
            assert(head.spec_bytes() == front);
            assert(valid_utf8(bytes));
            assert(valid_utf8(front));
            if self.start < self.end {
                assert(is_char_boundary(bytes, self.start as int) <==> !is_continuation_byte(
                    bytes[self.start as int],
                ));
                assert(front[self.start as int] == bytes[self.start as int]);
                assert(is_char_boundary(front, self.start as int) <==> !is_continuation_byte(
                    front[self.start as int],
                ));
            } else {
                assert(is_char_boundary(front, front.len() as int));
            }
        }
        let (_, body) = head.split_at(self.start);
        assert(body.spec_bytes() =~= bytes.subrange(self.start as int, self.end as int));
        body
    }

    /// Whether the span can be cut out of `source`.
    pub fn within(&self, source: &str) -> (r: bool)
        ensures
            r == self.fits(source),
    {
        self.start <= self.end && self.end <= source.as_bytes().len() && source.is_char_boundary(
            self.start,
        ) && source.is_char_boundary(self.end)
    }
}

impl Default for Span {
    fn default() -> (r: Self)
        ensures
            r.start == 0,
            r.end == 0,
    {
        Span { start: 0, end: 0 }
    }
}

} // verus!
