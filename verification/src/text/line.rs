//! Text handling logic related to individual lines of text.
//!
//! This module is the core of multi-line text handling: an `Infos` iterator walks a text line
//! by line, turning the break that a wrapping rule finds in the rest of the text into the `Info`
//! describing the next line.
use crate::text::{is_line_range, range_bytes, FontSize, Wrap};
use vstd::prelude::*;
use vstd::string::StringSliceAdditionalSpecFns;

verus! {

/// The three kinds of **Break** indices returned by the line breaking rules.
#[derive(Copy, Clone, Debug, PartialEq, Eq, Structural)]
pub enum Break {
    /// A break caused by the text exceeding some maximum width.
    Wrap {
        /// The byte index at which the break occurs.
        byte: usize,
        /// The char index at which the string should wrap due to exceeding a maximum width.
        char: usize,
        /// The byte length which should be skipped in order to reach the first non-whitespace
        /// character to use as the beginning of the next line.
        len_bytes: usize,
    },
    /// A break caused by a newline character.
    Newline {
        /// The byte index at which the string should wrap due to exceeding a maximum width.
        byte: usize,
        /// The char index at which the string should wrap due to exceeding a maximum width.
        char: usize,
        /// The width of the "newline" token in bytes.
        len_bytes: usize,
    },
    /// The end of the string has been reached, with the given length.
    End {
        /// The ending byte index.
        byte: usize,
        /// The ending char index.
        char: usize,
    },
}

/// Information about a single line of text within a `&str`.
///
/// `Info` is a minimal amount of information that can be stored for efficient reasoning about
/// blocks of text given some `&str`. The `start` and `end_break` can be used for indexing into
/// the `&str`, and the `width` can be used for calculating line `Rect`s, alignment, etc.
#[derive(Copy, Clone, Debug, PartialEq)]
pub struct Info<W> {
    /// The index into the `&str` that represents the first character within the line.
    pub start_byte: usize,
    /// The character index of the first character in the line.
    pub start_char: usize,
    /// The index within the `&str` at which this line breaks into a new line, along with the
    /// index at which the following line begins. The variant describes whether the break is
    /// caused by a `Newline` character or a `Wrap` by the given wrap function.
    pub end_break: Break,
    /// The total width of all characters within the line.
    pub width: W,
}

/// An iterator yielding an `Info` struct for each line in the given `text`, measured with a
/// font of type `F`.
///
/// The break ending each line is found in the rest of the text (see `remaining_text`) by the
/// rule that `wrap` names, or by newlines alone where it names none; that break, with the width
/// the rule measured, is handed to `next_with_break`.
pub struct Infos<'a, F, W> {
    text: &'a str,
    font: &'a F,
    font_size: FontSize,
    max_width: Option<W>,
    wrap: Option<Wrap>,
    /// The index that indicates the start of the next line to be yielded.
    start_byte: usize,
    /// The character index that indicates the start of the next line to be yielded.
    start_char: usize,
    /// The break type of the previously yielded line.
    last_break: Option<Break>,
}

/// The byte index at which the break occurs.
pub open spec fn spec_byte_index(b: Break) -> usize {
    match b {
        Break::Wrap { byte, .. } => byte,
        Break::Newline { byte, .. } => byte,
        Break::End { byte, .. } => byte,
    }
}

/// The char index at which the break occurs.
pub open spec fn spec_char_index(b: Break) -> usize {
    match b {
        Break::Wrap { char, .. } => char,
        Break::Newline { char, .. } => char,
        Break::End { char, .. } => char,
    }
}

impl Break {
    /// Return the index at which the break occurs.
    pub fn byte_index(self) -> (r: usize)
        ensures
            r == spec_byte_index(self),
    {
        match self {
            Break::Wrap { byte, .. } | Break::Newline { byte, .. } | Break::End { byte, .. } => {
                byte
            },
        }
    }

    /// Return the index of the `char` at which the break occurs.
    ///
    /// To clarify, this index is to be used in relation to the `Chars` iterator.
    pub fn char_index(self) -> (r: usize)
        ensures
            r == spec_char_index(self),
    {
        match self {
            Break::Wrap { char, .. } | Break::Newline { char, .. } | Break::End { char, .. } => {
                char
            },
        }
    }
}

impl<W> Info<W> {
    /// The end of the byte index range for indexing into the slice.
    pub fn end_byte(&self) -> (r: usize)
        ensures
            r == spec_byte_index(self.end_break),
    {
        self.end_break.byte_index()
    }

    /// The end of the index range for indexing into the slice.
    pub fn end_char(&self) -> (r: usize)
        ensures
            r == spec_char_index(self.end_break),
    {
        self.end_break.char_index()
    }

    /// The index range for indexing (via bytes) into the whole str slice.
    pub fn byte_range(&self) -> (r: std::ops::Range<usize>)
        ensures
            r.start == self.start_byte && r.end == spec_byte_index(self.end_break),
    {
        std::ops::Range { start: self.start_byte, end: self.end_byte() }
    }

    /// The index range for indexing into a `char` iterator over the whole str slice.
    pub fn char_range(&self) -> (r: std::ops::Range<usize>)
        ensures
            r.start == self.start_char && r.end == spec_char_index(self.end_break),
    {
        std::ops::Range { start: self.start_char, end: self.end_char() }
    }
}

/// Whether the line after the previous break must still be yielded when the rest of the text
/// is empty: after a newline, or when nothing has been yielded yet.
pub open spec fn ends_with_empty_line(last_break: Option<Break>) -> bool {
    match last_break {
        Some(Break::Newline { .. }) => true,
        Some(_) => false,
        None => true,
    }
}

/// The position at which the line after the break `found` begins, for a break found in the text
/// from `(start_byte, start_char)`: past the break's own bytes, which are as many chars (`\r\n`,
/// `\n`, a skipped ASCII whitespace, or nothing for a wrap at a character).
pub open spec fn next_line_start(start_byte: int, start_char: int, found: Break) -> (int, int) {
    match found {
        Break::Newline { byte, char, len_bytes } => (
            start_byte + byte + len_bytes,
            start_char + char + len_bytes,
        ),
        Break::Wrap { byte, char, len_bytes } => (
            start_byte + byte + len_bytes,
            start_char + char + len_bytes,
        ),
        Break::End { char, .. } => (-1, start_char + char),
    }
}

/// The break `found` in the text from `(start_byte, start_char)`, made absolute within a text
/// of `text_len` bytes.
pub open spec fn absolute_break(
    start_byte: int,
    start_char: int,
    text_len: int,
    found: Break,
) -> Break {
    match found {
        Break::Newline { byte, char, len_bytes } => Break::Newline {
            byte: (start_byte + byte) as usize,
            char: (start_char + char) as usize,
            len_bytes,
        },
        Break::Wrap { byte, char, len_bytes } => Break::Wrap {
            byte: (start_byte + byte) as usize,
            char: (start_char + char) as usize,
            len_bytes,
        },
        Break::End { char, .. } => Break::End {
            byte: text_len as usize,
            char: (start_char + char) as usize,
        },
    }
}

impl<'a, F, W> Infos<'a, F, W> {
    /// The start of the next line lies at a character boundary within the text.
    #[verifier::type_invariant]
    pub closed spec fn wf(self) -> bool {
        &&& self.start_byte <= self.text.spec_bytes().len()
        &&& vstd::utf8::is_char_boundary(self.text.spec_bytes(), self.start_byte as int)
    }

    /// The text being broken into lines.
    pub closed spec fn text(self) -> &'a str {
        self.text
    }

    /// The byte index at which the next line starts.
    pub closed spec fn start_byte(self) -> int {
        self.start_byte as int
    }

    /// The char index at which the next line starts.
    pub closed spec fn start_char(self) -> int {
        self.start_char as int
    }

    /// The break that ended the previously yielded line.
    pub closed spec fn last_break(self) -> Option<Break> {
        self.last_break
    }

    /// The wrapping rule, if any.
    pub closed spec fn spec_wrap(self) -> Option<Wrap> {
        self.wrap
    }

    /// The width at which lines wrap, if any.
    pub closed spec fn spec_max_width(self) -> Option<W> {
        self.max_width
    }

    /// The font used to measure the text.
    pub closed spec fn spec_font(self) -> F {
        *self.font
    }

    /// The font size used to measure the text.
    pub closed spec fn spec_font_size(self) -> FontSize {
        self.font_size
    }

    /// Whether a break found in the rest of the text leads to a position that is still a
    /// character boundary of the text and whose indices fit a `usize`.
    pub open spec fn break_fits(self, found: Break) -> bool {
        let len = self.text().spec_bytes().len();
        match found {
            Break::End { char, .. } => self.start_char() + char <= usize::MAX,
            _ => {
                let (b, c) = next_line_start(self.start_byte(), self.start_char(), found);
                &&& b <= len
                &&& b <= usize::MAX
                &&& vstd::utf8::is_char_boundary(self.text().spec_bytes(), b)
                &&& c <= usize::MAX
            },
        }
    }

    /// The wrapping rule, if any.
    pub fn wrap(&self) -> (r: Option<Wrap>)
        ensures
            r == self.spec_wrap(),
    {
        self.wrap
    }

    /// The font used to measure the text.
    pub fn font(&self) -> (r: &'a F)
        ensures
            *r == self.spec_font(),
    {
        self.font
    }

    /// The font size used to measure the text.
    pub fn font_size(&self) -> (r: FontSize)
        ensures
            r == self.spec_font_size(),
    {
        self.font_size
    }

    /// The width at which lines wrap, if any.
    pub fn max_width(&self) -> (r: &Option<W>)
        ensures
            *r == self.spec_max_width(),
    {
        &self.max_width
    }

    /// The rest of the text, from the start of the next line, in which the next break is to be
    /// found.
    pub fn remaining_text(&self) -> (r: &'a str)
        ensures
            r.spec_bytes() == self.text().spec_bytes().subrange(
                self.start_byte(),
                self.text().spec_bytes().len() as int,
            ),
    {
        proof {
            use_type_invariant(self);
        }
        let range = std::ops::Range { start: self.start_byte, end: self.text.as_bytes().len() };
        proof {
            vstd::utf8::encode_utf8_valid_utf8(self.text@);
            vstd::utf8::is_char_boundary_start_end_of_seq(self.text.spec_bytes());
            assert(is_line_range(self.text, range));
        }
        let r = crate::text::slice(self.text, range);
        assert(r.spec_bytes() == range_bytes(self.text, range));
        r
    }

    /// Converts `Self` into an `Infos` whose lines are wrapped at the character that first
    /// causes the line width to exceed the given `max_width`.
    pub fn wrap_by_character(self, max_width: W) -> (r: Self)
        ensures
            r.text() == self.text() && r.start_byte() == self.start_byte() && r.start_char()
                == self.start_char() && r.last_break() == self.last_break(),
            r.spec_font() == self.spec_font() && r.spec_font_size() == self.spec_font_size(),
            r.spec_wrap() == Some(Wrap::Character),
            r.spec_max_width() == Some(max_width),
    {
        proof {
            use_type_invariant(&self);
        }
        let mut s = self;
        s.wrap = Some(Wrap::Character);
        s.max_width = Some(max_width);
        s
    }

    /// Converts `Self` into an `Infos` whose lines are wrapped at the whitespace prior to the
    /// character that causes the line width to exceed the given `max_width`.
    pub fn wrap_by_whitespace(self, max_width: W) -> (r: Self)
        ensures
            r.text() == self.text() && r.start_byte() == self.start_byte() && r.start_char()
                == self.start_char() && r.last_break() == self.last_break(),
            r.spec_font() == self.spec_font() && r.spec_font_size() == self.spec_font_size(),
            r.spec_wrap() == Some(Wrap::Whitespace),
            r.spec_max_width() == Some(max_width),
    {
        proof {
            use_type_invariant(&self);
        }
        let mut s = self;
        s.wrap = Some(Wrap::Whitespace);
        s.max_width = Some(max_width);
        s
    }

    /// Yield the `Info` of the next line, given the break `found` by the wrapping rule in
    /// `remaining_text()` and the width of the line that the rule measured.
    ///
    /// A `Newline` or `Wrap` break ends a line there; the next line starts after the break's
    /// bytes. An `End` break ends the last line at the end of the text, which is yielded unless
    /// the rest of the text is empty and the previous line did not end in a newline.
    pub fn next_with_break(&mut self, found: Break, width: W) -> (r: Option<Info<W>>)
        requires
            old(self).break_fits(found),
        ensures
            final(self).text() == old(self).text(),
            final(self).spec_wrap() == old(self).spec_wrap(),
            final(self).spec_max_width() == old(self).spec_max_width(),
            final(self).spec_font() == old(self).spec_font(),
            final(self).spec_font_size() == old(self).spec_font_size(),
            ({
                let sb = old(self).start_byte();
                let sc = old(self).start_char();
                let len = old(self).text().spec_bytes().len() as int;
                let end = absolute_break(sb, sc, len, found);
                let yields = !(found is End) || sb < len || ends_with_empty_line(
                    old(self).last_break(),
                );
                &&& yields ==> r == Some(
                    Info { start_byte: sb as usize, start_char: sc as usize, end_break: end, width },
                )
                &&& yields ==> final(self).last_break() == Some(end)
                &&& yields && !(found is End) ==> (final(self).start_byte(), final(self).start_char())
                    == next_line_start(sb, sc, found)
                &&& yields && found is End ==> final(self).start_byte() == len
                    && final(self).start_char() == sc + spec_char_index(found)
                &&& !yields ==> r is None && final(self).start_byte() == sb
                    && final(self).start_char() == sc && final(self).last_break()
                    == old(self).last_break()
            }),
    {
        proof {
            use_type_invariant(&*self);
        }
        let start_byte = self.start_byte;
        let start_char = self.start_char;
        match found {
            Break::Newline { byte, char, len_bytes } => {
                let next_break = Break::Newline {
                    byte: start_byte + byte,
                    char: start_char + char,
                    len_bytes,
                };
                let info = Info { start_byte, start_char, end_break: next_break, width };
                self.start_byte = start_byte + byte + len_bytes;
                self.start_char = start_char + char + len_bytes;
                self.last_break = Some(next_break);
                Some(info)
            },
            Break::Wrap { byte, char, len_bytes } => {
                let next_break = Break::Wrap {
                    byte: start_byte + byte,
                    char: start_char + char,
                    len_bytes,
                };
                let info = Info { start_byte, start_char, end_break: next_break, width };
                self.start_byte = start_byte + byte + len_bytes;
                self.start_char = start_char + char + len_bytes;
                self.last_break = Some(next_break);
                Some(info)
            },
            Break::End { char, .. } => {
                let empty_line = match self.last_break {
                    Some(Break::Newline { .. }) => true,
                    Some(_) => false,
                    None => true,
                };
                let total_bytes = self.text.as_bytes().len();
                if start_byte < total_bytes || empty_line {
                    let total_chars = start_char + char;
                    let end_break = Break::End { byte: total_bytes, char: total_chars };
                    let info = Info { start_byte, start_char, end_break, width };
                    proof {
                        vstd::utf8::encode_utf8_valid_utf8(self.text@);
                        vstd::utf8::is_char_boundary_start_end_of_seq(self.text.spec_bytes());
                    }
                    self.start_byte = total_bytes;
                    self.start_char = total_chars;
                    self.last_break = Some(end_break);
                    Some(info)
                } else {
                    None
                }
            },
        }
    }
}

/// Whether a line break starts at char `k` of `cs`: a `\n`, or a `\r` directly followed by one.
pub open spec fn is_newline_at(cs: Seq<char>, k: int) -> bool {
    cs[k] == '\n' || (cs[k] == '\r' && k + 1 < cs.len() && cs[k + 1] == '\n')
}

/// The char index of the first line break at or after `s` in `cs`, or the length of `cs` where
/// there is none.
pub open spec fn next_newline_at(cs: Seq<char>, s: int) -> int
    decreases cs.len() - s,
{
    if s >= cs.len() {
        cs.len() as int
    } else if is_newline_at(cs, s) {
        s
    } else {
        next_newline_at(cs, s + 1)
    }
}

/// The number of chars of the line break that starts at char `k` of `cs`: two for `\r\n`, one for
/// `\n`.
pub open spec fn newline_len(cs: Seq<char>, k: int) -> int {
    if cs[k] == '\r' {
        2
    } else {
        1
    }
}

/// The first line break at or after `s` lies between `s` and the end of the text, and is one.
pub proof fn lemma_next_newline_bounds(cs: Seq<char>, s: int)
    requires
        0 <= s <= cs.len(),
    ensures
        s <= next_newline_at(cs, s) <= cs.len(),
        next_newline_at(cs, s) < cs.len() ==> is_newline_at(cs, next_newline_at(cs, s)),
    decreases cs.len() - s,
{
    if s < cs.len() && !is_newline_at(cs, s) {
        lemma_next_newline_bounds(cs, s + 1);
    }
}

/// The char ranges of the lines of `cs` from char `s` on: the text between one line break and the
/// next, the last line ending with the text.
pub open spec fn newline_lines(cs: Seq<char>, s: int) -> Seq<(int, int)>
    decreases cs.len() - s,
{
    if s < 0 || s > cs.len() {
        Seq::empty()
    } else {
        let k = next_newline_at(cs, s);
        if k >= cs.len() {
            seq![(s, cs.len() as int)]
        } else {
            proof {
                lemma_next_newline_bounds(cs, s);
            }
            seq![(s, k)] + newline_lines(cs, k + newline_len(cs, k))
        }
    }
}

/// What `next_newline_break` finds in `cs`, as far as chars go: the first line break and its
/// char index and length, or the end of the text.
pub open spec fn newline_break_of(cs: Seq<char>, r: Break) -> bool {
    match r {
        Break::Newline { byte, char, len_bytes } => {
            &&& char < cs.len()
            &&& is_newline_at(cs, char as int)
            &&& forall|j: int| 0 <= j < char ==> !is_newline_at(cs, j)
            &&& len_bytes == newline_len(cs, char as int)
        },
        Break::End { byte, char } => {
            &&& forall|j: int| 0 <= j < cs.len() ==> !is_newline_at(cs, j)
            &&& char == cs.len()
        },
        Break::Wrap { .. } => false,
    }
}

proof fn lemma_next_newline_skip(cs: Seq<char>, s: int, c: int)
    requires
        0 <= s,
        0 <= c,
        s + c <= cs.len(),
        forall|k: int| s <= k < s + c ==> !is_newline_at(cs, k),
    ensures
        next_newline_at(cs, s) == next_newline_at(cs, s + c),
    decreases c,
{
    if c > 0 {
        lemma_next_newline_skip(cs, s + 1, c - 1);
        assert(!is_newline_at(cs, s));
    }
}

/// A line break found in the rest of a text is the end of the text's next line, and the line
/// after it starts past the break: stepping from line start to line start by the breaks that
/// `next_newline_break` finds yields the lines of the text one by one, up to the last one, which
/// ends with the text.
pub proof fn lemma_newline_break_next_line(cs: Seq<char>, s: int, b: Break)
    requires
        0 <= s <= cs.len(),
        newline_break_of(cs.subrange(s, cs.len() as int), b),
    ensures
        match b {
            Break::Newline { char, len_bytes, .. } => newline_lines(cs, s) == seq![(s, s + char)]
                + newline_lines(cs, s + char + len_bytes),
            _ => newline_lines(cs, s) == seq![(s, s + spec_char_index(b))] && s + spec_char_index(b)
                == cs.len(),
        },
{
    let rest = cs.subrange(s, cs.len() as int);
    assert forall|k: int| s <= k < cs.len() implies is_newline_at(rest, k - s) == is_newline_at(cs, k) by {
        assert(rest[k - s] == cs[k]);
        if k + 1 < cs.len() {
            assert(rest[k - s + 1] == cs[k + 1]);
        }
    }
    match b {
        Break::Newline { char, len_bytes, .. } => {
            let c = char as int;
            lemma_next_newline_skip(cs, s, c);
            assert(is_newline_at(cs, s + c));
            assert(next_newline_at(cs, s + c) == s + c);
            assert(newline_len(cs, s + c) == newline_len(rest, c));
        },
        Break::End { char, .. } => {
            let c = rest.len() as int;
            lemma_next_newline_skip(cs, s, c);
            assert(next_newline_at(cs, s + c) == cs.len());
        },
        Break::Wrap { .. } => {},
    }
}

/// The number of bytes in the UTF-8 encoding of the first `k` chars of `cs`.
pub open spec fn byte_offset(cs: Seq<char>, k: int) -> int {
    vstd::utf8::encode_utf8(cs.subrange(0, k)).len() as int
}

/// The number of bytes in the UTF-8 encoding of `c`.
fn utf8_width(c: char) -> (r: usize)
    ensures
        r == vstd::utf8::encode_scalar(c as u32).len(),
        1 <= r <= 4,
{
    let v = c as u32;
    proof {
        vstd::utf8::char_is_scalar(c);
    }
    if v <= 0x7F {
        1
    } else if v <= 0x7FF {
        2
    } else if v <= 0xFFFF {
        3
    } else {
        4
    }
}

/// Encoding a concatenation encodes each part in turn.
proof fn lemma_encode_utf8_concat(a: Seq<char>, b: Seq<char>)
    ensures
        vstd::utf8::encode_utf8(a + b) == vstd::utf8::encode_utf8(a) + vstd::utf8::encode_utf8(b),
    decreases a.len(),
{
    if a.len() > 0 {
        assert((a + b).drop_first() =~= a.drop_first() + b);
        lemma_encode_utf8_concat(a.drop_first(), b);
        assert(vstd::utf8::encode_utf8(a + b) =~= vstd::utf8::encode_scalar(a[0] as u32)
            + (vstd::utf8::encode_utf8(a.drop_first()) + vstd::utf8::encode_utf8(b)));
    } else {
        assert(a + b =~= b);
        assert(vstd::utf8::encode_utf8(a) =~= Seq::<u8>::empty());
    }
}

/// The byte offset of the next char is that of this char plus the width of its encoding, and
/// offsets never pass the length of the whole encoding.
proof fn lemma_byte_offset_step(cs: Seq<char>, k: int)
    requires
        0 <= k < cs.len(),
    ensures
        byte_offset(cs, k + 1) == byte_offset(cs, k) + vstd::utf8::encode_scalar(
            cs[k] as u32,
        ).len(),
        byte_offset(cs, k + 1) <= vstd::utf8::encode_utf8(cs).len(),
{
    let pre = cs.subrange(0, k);
    let one = seq![cs[k]];
    assert(cs.subrange(0, k + 1) =~= pre + one);
    lemma_encode_utf8_concat(pre, one);
    assert(one.drop_first() =~= Seq::<char>::empty());
    assert(vstd::utf8::encode_utf8(one.drop_first()) =~= Seq::<u8>::empty());
    assert(vstd::utf8::encode_utf8(one) =~= vstd::utf8::encode_scalar(cs[k] as u32));
    let rest = cs.subrange(k + 1, cs.len() as int);
    assert(cs =~= cs.subrange(0, k + 1) + rest);
    lemma_encode_utf8_concat(cs.subrange(0, k + 1), rest);
}

/// Returns the next index at which the text naturally breaks via a newline character: the
/// first `\n`, or the first `\r` directly followed by a `\n`, or else the end of the text.
pub fn next_newline_break(text: &str) -> (r: Break)
    ensures
        newline_break_of(text@, r),
        match r {
            Break::Newline { byte, char, len_bytes } => {
                &&& char < text@.len()
                &&& is_newline_at(text@, char as int)
                &&& forall|j: int| 0 <= j < char ==> !is_newline_at(text@, j)
                &&& byte == byte_offset(text@, char as int)
                &&& len_bytes == (if text@[char as int] == '\r' { 2usize } else { 1usize })
            },
            Break::End { byte, char } => {
                &&& forall|j: int| 0 <= j < text@.len() ==> !is_newline_at(text@, j)
                &&& byte == text.spec_bytes().len()
                &&& char == text@.len()
            },
            Break::Wrap { .. } => false,
        },
{
    let total_bytes = text.as_bytes().len();
    let ghost cs = text@;
    let mut byte: usize = 0;
    let mut char_i: usize = 0;
    let mut prev_cr = false;
    let mut prev_byte: usize = 0;
    proof {
        assert(cs.subrange(0, 0) =~= Seq::<char>::empty());
        assert(vstd::utf8::encode_utf8(Seq::<char>::empty()) =~= Seq::<u8>::empty());
    }
    for c in it: text.chars()
        invariant
            cs == text@,
            it.seq() == cs,
            char_i == it.index(),
            total_bytes == vstd::utf8::encode_utf8(cs).len(),
            byte == byte_offset(cs, char_i as int),
            char_i <= byte,
            forall|j: int| 0 <= j < char_i ==> cs[j] != '\n',
            prev_cr == (char_i > 0 && cs[char_i - 1] == '\r'),
            prev_cr ==> prev_byte == byte_offset(cs, char_i - 1),
    {
        assert(c == cs[char_i as int]);
        if c == '\n' {
            if prev_cr {
                return Break::Newline { byte: prev_byte, char: char_i - 1, len_bytes: 2 };
            } else {
                return Break::Newline { byte, char: char_i, len_bytes: 1 };
            }
        }
        proof {
            lemma_byte_offset_step(cs, char_i as int);
        }
        let w = utf8_width(c);
        prev_cr = c == '\r';
        prev_byte = byte;
        byte = byte + w;
        char_i = char_i + 1;
    }
    Break::End { byte: total_bytes, char: char_i }
}

/// Produce an `Infos` iterator wrapped by the given rule at the given `max_width`.
pub fn infos_wrapped_by<'a, F, W>(
    text: &'a str,
    font: &'a F,
    font_size: FontSize,
    max_width: W,
    wrap: Wrap,
) -> (r: Infos<'a, F, W>)
    ensures
        r.text() == text && r.start_byte() == 0 && r.start_char() == 0 && r.last_break() is None,
        r.spec_font() == *font,
        r.spec_font_size() == font_size,
        r.spec_wrap() == Some(wrap),
        r.spec_max_width() == Some(max_width),
{
    proof {
        vstd::utf8::encode_utf8_valid_utf8(text@);
        vstd::utf8::is_char_boundary_start_end_of_seq(text.spec_bytes());
    }
    Infos {
        text,
        font,
        font_size,
        max_width: Some(max_width),
        wrap: Some(wrap),
        start_byte: 0,
        start_char: 0,
        last_break: None,
    }
}

/// Produce an `Infos` iterator that yields an `Info` for every line in the given text.
///
/// The produced `Infos` iterator will not wrap the text, and only break each line via newline
/// characters within the text (either `\n` or `\r\n`).
pub fn infos<'a, F, W>(text: &'a str, font: &'a F, font_size: FontSize) -> (r: Infos<'a, F, W>)
    ensures
        r.text() == text && r.start_byte() == 0 && r.start_char() == 0 && r.last_break() is None,
        r.spec_font() == *font,
        r.spec_font_size() == font_size,
        r.spec_wrap() is None,
        r.spec_max_width() is None,
{
    proof {
        vstd::utf8::encode_utf8_valid_utf8(text@);
        vstd::utf8::is_char_boundary_start_end_of_seq(text.spec_bytes());
    }
    Infos {
        text,
        font,
        font_size,
        max_width: None,
        wrap: None,
        start_byte: 0,
        start_char: 0,
        last_break: None,
    }
}

} // verus!
