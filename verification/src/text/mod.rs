//! Text layout logic: alignment, wrapping, line breaking and the fonts used to measure text.
use vstd::prelude::*;
use vstd::string::StringSliceAdditionalSpecFns;

pub mod font;
pub mod line;

verus! {

/// The RustType `Font` type used by nannou.
#[verifier::external_type_specification]
#[verifier::external_body]
pub struct ExFont<'a>(rusttype::Font<'a>);

/// The type used to specify `FontSize` in font points.
pub type FontSize = u32;

/// An iterator yielding each line within the given `text` as a new `&str`, where the start and
/// end indices into each line are provided by the given byte ranges.
pub struct Lines<'a> {
    text: &'a str,
    ranges: Vec<std::ops::Range<usize>>,
    next: usize,
}

/// Alignment along an axis.
#[derive(Copy, Clone, Debug, Hash, Eq, PartialEq, PartialOrd, Ord, Structural)]
pub enum Align {
    Start,
    Middle,
    End,
}

/// A type used for referring to typographic alignment of `Text`.
#[derive(Copy, Clone, Debug, PartialEq, Eq, Structural)]
pub enum Justify {
    /// Align text to the start of the bounding `Rect`'s *x* axis.
    Left,
    /// Symmetrically align text along the *y* axis.
    Center,
    /// Align text to the end of the bounding `Rect`'s *x* axis.
    Right,
}

/// The way in which text should wrap around the width.
#[derive(Copy, Clone, Debug, PartialEq, Eq, Structural)]
pub enum Wrap {
    /// Wrap at the first character that exceeds the width.
    Character,
    /// Wrap at the first word that exceeds the width.
    Whitespace,
}

/// The byte range lies within the bytes of `text` and starts and ends at character boundaries.
pub open spec fn is_line_range(text: &str, range: std::ops::Range<usize>) -> bool {
    &&& range.start <= range.end <= text.spec_bytes().len()
    &&& vstd::utf8::is_char_boundary(text.spec_bytes(), range.start as int)
    &&& vstd::utf8::is_char_boundary(text.spec_bytes(), range.end as int)
}

/// The bytes of `text` within `range`.
pub open spec fn range_bytes(text: &str, range: std::ops::Range<usize>) -> Seq<u8> {
    text.spec_bytes().subrange(range.start as int, range.end as int)
}

/// The slice of `text` between two character boundaries.
fn slice<'a>(text: &'a str, range: std::ops::Range<usize>) -> (r: &'a str)
    requires
        is_line_range(text, range),
    ensures
        r.spec_bytes() == range_bytes(text, range),
{
    let bytes = Ghost(text.spec_bytes());
    proof {
        vstd::utf8::encode_utf8_valid_utf8(text@);
        vstd::utf8::valid_utf8_split(bytes@, range.end as int);
    }
    let (head, _) = text.split_at(range.end);
    proof {
        let hb = head.spec_bytes();
        assert(hb =~= bytes@.subrange(0, range.end as int));
        vstd::utf8::is_char_boundary_start_end_of_seq(hb);
        if range.start < range.end {
            vstd::utf8::is_char_boundary_iff_not_is_continuation_byte(bytes@, range.start as int);
            vstd::utf8::is_char_boundary_iff_not_is_continuation_byte(hb, range.start as int);
        }
    }
    let (_, line) = head.split_at(range.start);
    proof {
        assert(line.spec_bytes() =~= range_bytes(text, range));
    }
    line
}

impl<'a> Lines<'a> {
    /// The position of the next range lies within the ranges, and every range names a slice of
    /// the text between character boundaries.
    #[verifier::type_invariant]
    closed spec fn wf(self) -> bool {
        &&& self.next <= self.ranges@.len()
        &&& forall|k: int| 0 <= k < self.ranges@.len() ==> is_line_range(self.text, self.ranges@[k])
    }

    /// The text the lines are sliced from.
    pub closed spec fn text(self) -> &'a str {
        self.text
    }

    /// The byte ranges of the lines not yet yielded.
    pub closed spec fn remaining(self) -> Seq<std::ops::Range<usize>> {
        self.ranges@.subrange(self.next as int, self.ranges@.len() as int)
    }

    /// Yield the slice of the text for the next range.
    pub fn next(&mut self) -> (r: Option<&'a str>)
        ensures
            final(self).text() == old(self).text(),
            old(self).remaining().len() == 0 ==> r is None && final(self).remaining().len() == 0,
            old(self).remaining().len() > 0 ==> (r matches Some(line) && line.spec_bytes()
                == range_bytes(old(self).text(), old(self).remaining()[0]))
                && final(self).remaining() == old(self).remaining().drop_first(),
    {
        proof {
            use_type_invariant(&*self);
        }
        if self.next < self.ranges.len() {
            let k = self.next;
            let range = std::ops::Range { start: self.ranges[k].start, end: self.ranges[k].end };
            assert(range == self.ranges@[k as int]);
            self.next = k + 1;
            proof {
                assert(self.remaining() =~= old(self).remaining().drop_first());
            }
            Some(slice(self.text, range))
        } else {
            None
        }
    }
}

impl<'a> Clone for Lines<'a> {
    fn clone(&self) -> (r: Self)
        ensures
            r.text() == self.text(),
            r.remaining() == self.remaining(),
    {
        proof {
            use_type_invariant(self);
        }
        let mut ranges: Vec<std::ops::Range<usize>> = Vec::new();
        let mut k: usize = 0;
        while k < self.ranges.len()
            invariant
                k <= self.ranges@.len(),
                ranges@ == self.ranges@.take(k as int),
            decreases self.ranges.len() - k,
        {
            let range = std::ops::Range { start: self.ranges[k].start, end: self.ranges[k].end };
            assert(range == self.ranges@[k as int]);
            ranges.push(range);
            k = k + 1;
            assert(ranges@ =~= self.ranges@.take(k as int));
        }
        assert(self.ranges@.take(k as int) =~= self.ranges@);
        Lines { text: self.text, ranges, next: self.next }
    }
}

/// Produce an iterator yielding each line within the given `text` as a new `&str`, where the
/// start and end indices into each line are provided by the given ranges.
pub fn lines<'a>(text: &'a str, ranges: Vec<std::ops::Range<usize>>) -> (r: Lines<'a>)
    requires
        forall|k: int| 0 <= k < ranges@.len() ==> is_line_range(text, ranges@[k]),
    ensures
        r.text() == text,
        r.remaining() == ranges@,
{
    let r = Lines { text, ranges, next: 0 };
    assert(r.remaining() =~= r.ranges@);
    r
}

} // verus!
