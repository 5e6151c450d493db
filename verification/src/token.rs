//! The fragments of the text of a filter, and where they stand in it.

use vstd::prelude::*;
use vstd::string::StringExecFns;

verus! {

/// A fragment of the text of a filter: the characters from `start` up to
/// `end`. A token holds no text of its own; it refers to its source.
#[derive(Clone, Copy, Debug, PartialEq, Eq, Structural)]
pub struct Token {
    pub start: usize,
    pub end: usize,
}

/// The text that a token refers to in `source`: nothing where the token does
/// not lie within the source.
pub open spec fn text_of(source: Seq<char>, token: Token) -> Seq<char> {
    if token.start <= token.end <= source.len() {
        source.subrange(token.start as int, token.end as int)
    } else {
        Seq::empty()
    }
}

/// The number of bytes that a character takes in the text.
pub open spec fn utf8_width(c: char) -> nat {
    if (c as u32) < 0x80 {
        1
    } else if (c as u32) < 0x800 {
        2
    } else if (c as u32) < 0x1_0000 {
        3
    } else {
        4
    }
}

/// The number of bytes that the characters take in the text.
pub open spec fn byte_length(chars: Seq<char>) -> nat
    decreases chars.len(),
{
    if chars.len() == 0 {
        0
    } else {
        byte_length(chars.drop_last()) + utf8_width(chars.last())
    }
}

/// The number `n`, or the greatest `usize` where `n` lies above it.
pub open spec fn clipped(n: nat) -> usize {
    if n <= usize::MAX {
        n as usize
    } else {
        usize::MAX
    }
}

/// The place of a token in the bytes of its source: where it starts, and how
/// many bytes it takes. Both stop at the greatest `usize`.
pub open spec fn byte_span(source: Seq<char>, token: Token) -> (usize, usize) {
    if token.start <= token.end <= source.len() {
        (
            clipped(byte_length(source.subrange(0, token.start as int))),
            clipped(byte_length(source.subrange(token.start as int, token.end as int))),
        )
    } else {
        (0, 0)
    }
}

/// Counts the bytes of the characters from `start` up to `end`.
fn count_bytes(chars: &Vec<char>, start: usize, end: usize) -> (r: usize)
    requires
        start <= end <= chars.len(),
    ensures
        r == clipped(byte_length(chars@.subrange(start as int, end as int))),
{
    let mut total: usize = 0;
    let mut i = start;
    assert(chars@.subrange(start as int, start as int).len() == 0);
    while i < end
        invariant
            start <= i <= end <= chars.len(),
            total == clipped(byte_length(chars@.subrange(start as int, i as int))),
        decreases end - i,
    {
        let c = chars[i];
        let width: usize = if (c as u32) < 0x80 {
            1
        } else if (c as u32) < 0x800 {
            2
        } else if (c as u32) < 0x1_0000 {
            3
        } else {
            4
        };
        proof {
            let next = chars@.subrange(start as int, i + 1);
            assert(next.drop_last() == chars@.subrange(start as int, i as int));
            assert(next.last() == c);
        }
        total = total.saturating_add(width);
        i += 1;
    }
    total
}

impl Token {
    /// The text that the token refers to in `source`.
    pub fn fragment(&self, source: &str) -> (r: String)
        ensures
            r@ == text_of(source@, *self),
    {
        if self.start <= self.end && self.end <= source.unicode_len() {
            String::from_str(source.substring_char(self.start, self.end))
        } else {
            String::new()
        }
    }

    /// The place of the token in the bytes of its source.
    pub fn span(&self, chars: &Vec<char>) -> (r: (usize, usize))
        ensures
            r == byte_span(chars@, *self),
    {
        if self.start <= self.end && self.end <= chars.len() {
            (count_bytes(chars, 0, self.start), count_bytes(chars, self.start, self.end))
        } else {
            (0, 0)
        }
    }
}

} // verus!
