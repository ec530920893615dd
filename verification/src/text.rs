//! Byte offsets and half-open byte ranges in source text.

use vstd::prelude::*;

verus! {

/// The number of bytes that a text takes in UTF-8, the unit in which offsets
/// into a text are counted.
pub open spec fn byte_len(text: Seq<char>) -> nat {
    vstd::utf8::encode_utf8(text).len()
}

/// The number of bytes of `text`.
pub fn text_len(text: &str) -> (r: usize)
    ensures
        r == byte_len(text@),
{
    text.as_bytes().len()
}

/// A half-open range `start..end` of byte offsets, with `start <= end`.
#[derive(Clone, Copy, Debug, PartialEq, Eq, Hash, Structural)]
pub struct TextRange {
    start: u32,
    end: u32,
}

impl TextRange {
    #[verifier::type_invariant]
    spec fn ordered(self) -> bool {
        self.start <= self.end
    }

    /// The range `start..end`.
    pub closed spec fn spec_new(start: u32, end: u32) -> TextRange {
        TextRange { start, end }
    }

    /// The range of `len` bytes that begins at `offset`.
    pub open spec fn spec_at(offset: u32, len: u32) -> TextRange {
        TextRange::spec_new(offset, (offset + len) as u32)
    }

    /// The ends of the range `start..end` are `start` and `end`.
    pub broadcast proof fn lemma_spec_new(start: u32, end: u32)
        ensures
            (#[trigger] TextRange::spec_new(start, end)).spec_start() == start,
            TextRange::spec_new(start, end).spec_end() == end,
    {
    }

    /// A range is made of its two ends.
    pub broadcast proof fn lemma_spec_new_ends(self)
        ensures
            TextRange::spec_new(#[trigger] self.spec_start(), self.spec_end()) == self,
    {
    }

    /// The smallest range that holds both `self` and `other`.
    pub open spec fn spec_cover(self, other: TextRange) -> TextRange {
        TextRange::spec_new(
            if self.spec_start() <= other.spec_start() {
                self.spec_start()
            } else {
                other.spec_start()
            },
            if self.spec_end() >= other.spec_end() {
                self.spec_end()
            } else {
                other.spec_end()
            },
        )
    }

    /// The range moved `offset` bytes towards the start of the text, or
    /// nothing when it begins before `offset`.
    pub open spec fn spec_checked_sub(self, offset: u32) -> Option<TextRange> {
        if offset <= self.spec_start() {
            Some(
                TextRange::spec_new(
                    (self.spec_start() - offset) as u32,
                    (self.spec_end() - offset) as u32,
                ),
            )
        } else {
            None
        }
    }

    /// The range moved `offset` bytes towards the end of the text, or
    /// nothing when its end would pass the largest offset.
    pub open spec fn spec_checked_add(self, offset: u32) -> Option<TextRange> {
        if self.spec_end() + offset <= u32::MAX {
            Some(
                TextRange::spec_new(
                    (self.spec_start() + offset) as u32,
                    (self.spec_end() + offset) as u32,
                ),
            )
        } else {
            None
        }
    }

    /// The first offset of the range.
    pub closed spec fn spec_start(self) -> u32 {
        self.start
    }

    /// The offset one past the last byte of the range.
    pub closed spec fn spec_end(self) -> u32 {
        self.end
    }

    /// The number of bytes the range spans.
    pub open spec fn spec_len(self) -> int {
        self.spec_end() - self.spec_start()
    }

    /// Whether `other` lies wholly inside this range.
    pub open spec fn spec_contains_range(self, other: TextRange) -> bool {
        self.spec_start() <= other.spec_start() && other.spec_end() <= self.spec_end()
    }

    /// Whether `offset` lies inside this range (the end is excluded).
    pub open spec fn spec_contains(self, offset: u32) -> bool {
        self.spec_start() <= offset < self.spec_end()
    }

    /// Two ranges with the same ends are the same range.
    pub proof fn lemma_ext(self, other: TextRange)
        requires
            self.spec_start() == other.spec_start(),
            self.spec_end() == other.spec_end(),
        ensures
            self == other,
    {
    }

    /// The range `start..end`.
    pub fn new(start: u32, end: u32) -> (r: TextRange)
        requires
            start <= end,
        ensures
            r == TextRange::spec_new(start, end),
            r.spec_start() == start,
            r.spec_end() == end,
    {
        TextRange { start, end }
    }

    /// The range `start..end`, or nothing when `start > end`.
    pub fn try_new(start: u32, end: u32) -> (r: Option<TextRange>)
        ensures
            r.is_some() <==> start <= end,
            r matches Some(range) ==> range.spec_start() == start && range.spec_end() == end,
    {
        if start <= end {
            Some(TextRange { start, end })
        } else {
            None
        }
    }

    /// The range of `len` bytes that begins at `offset`.
    pub fn at(offset: u32, len: u32) -> (r: TextRange)
        requires
            offset + len <= u32::MAX,
        ensures
            r == TextRange::spec_at(offset, len),
            r.spec_start() == offset,
            r.spec_end() == offset + len,
    {
        TextRange { start: offset, end: offset + len }
    }

    /// The empty range at `offset`.
    pub fn empty(offset: u32) -> (r: TextRange)
        ensures
            r == TextRange::spec_new(offset, offset),
            r.spec_start() == offset,
            r.spec_end() == offset,
    {
        TextRange { start: offset, end: offset }
    }

    #[verifier::when_used_as_spec(spec_start)]
    pub fn start(self) -> (r: u32)
        ensures
            r == self.spec_start(),
            r <= self.spec_end(),
    {
        proof {
            use_type_invariant(self);
        }
        self.start
    }

    #[verifier::when_used_as_spec(spec_end)]
    pub fn end(self) -> (r: u32)
        ensures
            r == self.spec_end(),
            self.spec_start() <= r,
    {
        proof {
            use_type_invariant(self);
        }
        self.end
    }

    pub fn len(self) -> (r: u32)
        ensures
            r == self.spec_len(),
    {
        proof {
            use_type_invariant(self);
        }
        self.end - self.start
    }

    pub fn is_empty(self) -> (r: bool)
        ensures
            r == (self.spec_len() == 0),
    {
        self.start == self.end
    }

    #[verifier::when_used_as_spec(spec_contains)]
    pub fn contains(self, offset: u32) -> (r: bool)
        ensures
            r == self.spec_contains(offset),
    {
        self.start <= offset && offset < self.end
    }

    #[verifier::when_used_as_spec(spec_contains_range)]
    pub fn contains_range(self, other: TextRange) -> (r: bool)
        ensures
            r == self.spec_contains_range(other),
    {
        self.start <= other.start && other.end <= self.end
    }

    /// The smallest range that holds both `self` and `other`.
    #[verifier::when_used_as_spec(spec_cover)]
    pub fn cover(self, other: TextRange) -> (r: TextRange)
        ensures
            r == self.spec_cover(other),
            r.spec_start() == if self.spec_start() <= other.spec_start() {
                self.spec_start()
            } else {
                other.spec_start()
            },
            r.spec_end() == if self.spec_end() >= other.spec_end() {
                self.spec_end()
            } else {
                other.spec_end()
            },
    {
        proof {
            use_type_invariant(self);
            use_type_invariant(other);
        }
        let start = if self.start <= other.start { self.start } else { other.start };
        let end = if self.end >= other.end { self.end } else { other.end };
        TextRange { start, end }
    }

    /// The range moved `offset` bytes towards the start of the text, or
    /// nothing when it begins before `offset`.
    #[verifier::when_used_as_spec(spec_checked_sub)]
    pub fn checked_sub(self, offset: u32) -> (r: Option<TextRange>)
        ensures
            r == self.spec_checked_sub(offset),
            r.is_some() <==> offset <= self.spec_start(),
            r matches Some(range) ==> range.spec_start() == self.spec_start() - offset
                && range.spec_end() == self.spec_end() - offset,
    {
        proof {
            use_type_invariant(self);
        }
        if offset <= self.start {
            Some(TextRange { start: self.start - offset, end: self.end - offset })
        } else {
            None
        }
    }

    /// The range moved `offset` bytes towards the end of the text, or
    /// nothing when its end would pass the largest offset.
    #[verifier::when_used_as_spec(spec_checked_add)]
    pub fn checked_add(self, offset: u32) -> (r: Option<TextRange>)
        ensures
            r == self.spec_checked_add(offset),
            r.is_some() <==> self.spec_end() + offset <= u32::MAX,
            r matches Some(range) ==> range.spec_start() == self.spec_start() + offset
                && range.spec_end() == self.spec_end() + offset,
    {
        proof {
            use_type_invariant(self);
        }
        if offset <= u32::MAX - self.end {
            Some(TextRange { start: self.start + offset, end: self.end + offset })
        } else {
            None
        }
    }
}

} // verus!
