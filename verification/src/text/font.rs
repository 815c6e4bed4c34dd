//! The `font::Id` and `font::FontMap` types.
use std::collections::HashMap;
use vstd::prelude::*;
use vstd::std_specs::iter::IteratorSpec;

verus! {

broadcast use vstd::std_specs::hash::group_hash_axioms;

/// A type-safe wrapper around the `FontId`.
///
/// This is used as both:
///
/// - The key for the `font::FontMap`'s inner `HashMap`.
/// - The `font_id` field for the rusttype::gpu_cache::Cache.
#[derive(Copy, Clone, Debug, Hash, PartialEq, Eq, PartialOrd, Ord, Structural)]
pub struct Id(usize);

/// The error of an I/O operation.
#[verifier::external_type_specification]
#[verifier::external_body]
pub struct ExIoError(std::io::Error);

/// Returned when loading new fonts from file or bytes.
#[derive(Debug)]
pub enum Error {
    /// Some error occurred while reading the font data.
    IO(std::io::Error),
    /// No `Font` could be read from the font data.
    NoFont,
}

/// Whether `rusttype::Font::try_from_vec` reads a font from the given bytes, which depends on
/// the bytes alone.
pub uninterp spec fn font_parses(bytes: Seq<u8>) -> bool;

/// The font that `rusttype::Font::try_from_vec` reads from the given bytes, where it reads one:
/// the first face of the font data, which depends on the bytes alone.
pub uninterp spec fn parsed_font(bytes: Seq<u8>) -> rusttype::Font<'static>;

/// Calls `rusttype::Font::try_from_vec`, which parses the first face of the font data: `Some`
/// exactly where the bytes hold one (`font_parses`), and then the font `parsed_font` names.
#[verifier::external_body]
fn font_try_from_vec(bytes: Vec<u8>) -> (r: Option<rusttype::Font<'static>>)
    ensures
        r is Some <==> font_parses(bytes@),
        r matches Some(f) ==> f == parsed_font(bytes@),
{
    rusttype::Font::try_from_vec(bytes)
}

/// The number of fonts that font data declares when it is a font collection: data that starts
/// with the tag `ttcf` and holds at least the tag, a version and the count, the count being the
/// big-endian `u32` that follows the version; no count for any other data.
pub open spec fn spec_fonts_in_collection(bytes: Seq<u8>) -> Option<u32> {
    if bytes.len() >= 12 && bytes[0] == 0x74u8 && bytes[1] == 0x74u8 && bytes[2] == 0x63u8
        && bytes[3] == 0x66u8 {
        Some(
            (bytes[8] as int * 0x1000000 + bytes[9] as int * 0x10000 + bytes[10] as int * 0x100
                + bytes[11] as int) as u32,
        )
    } else {
        None
    }
}

/// Calls `ttf_parser::fonts_in_collection`, which reads the font count of a font collection's
/// header and gives `None` for data that is no font collection.
#[verifier::external_body]
fn fonts_in_collection(bytes: &Vec<u8>) -> (r: Option<u32>)
    ensures
        r == spec_fonts_in_collection(bytes@),
{
    ttf_parser::fonts_in_collection(bytes.as_slice())
}

/// Calls `std::io::Error::new` with `ErrorKind::InvalidData`, for font data that is neither a
/// font nor a font collection.
#[verifier::external_body]
fn invalid_font_data() -> (e: std::io::Error) {
    std::io::Error::new(std::io::ErrorKind::InvalidData, "not a font or a font collection")
}

/// Whether the bytes load as a single font: they parse as a font, and where they are a font
/// collection it holds exactly one.
pub open spec fn loads_one_font(bytes: Seq<u8>) -> bool {
    &&& font_parses(bytes)
    &&& spec_fonts_in_collection(bytes) matches Some(n) ==> n == 1
}

/// Load a single `Font` from the given bytes, as read from a font file.
///
/// Returns `Error::IO` where the bytes are neither a font nor a font collection, and
/// `Error::NoFont` where they are a font collection that does not yield exactly one font.
pub fn from_bytes(bytes: Vec<u8>) -> (r: Result<rusttype::Font<'static>, Error>)
    ensures
        r is Ok <==> loads_one_font(bytes@),
        r matches Ok(f) ==> f == parsed_font(bytes@),
        r matches Err(e) ==> (e is NoFont <==> spec_fonts_in_collection(bytes@) is Some),
{
    let count = fonts_in_collection(&bytes);
    match count {
        Some(n) => {
            if n != 1 {
                return Err(Error::NoFont);
            }
            match font_try_from_vec(bytes) {
                Some(font) => Ok(font),
                None => Err(Error::NoFont),
            }
        },
        None => match font_try_from_vec(bytes) {
            Some(font) => Ok(font),
            None => Err(Error::IO(invalid_font_data())),
        },
    }
}

/// A collection of mappings from `font::Id`s to `rusttype::Font`s.
pub struct FontMap {
    next_index: usize,
    map: HashMap<usize, rusttype::Font<'static>>,
}

/// An iterator yielding an `Id` for each new `rusttype::Font` inserted into the `Map` via the
/// `insert_collection` method.
pub struct NewIds {
    index_range: std::ops::Range<usize>,
}

/// Yields the `Id` for each `Font` within the `Map`.
#[derive(Clone)]
pub struct Ids {
    ids: Vec<Id>,
    next: usize,
}

impl Id {
    /// The inner index of the `Id`.
    pub closed spec fn spec_index(self) -> usize {
        self.0
    }

    /// Returns the inner `usize` from the `Id`.
    pub fn index(self) -> (r: usize)
        ensures
            r == self.spec_index(),
    {
        self.0
    }
}

impl FontMap {
    /// Every font's index lies below the index that the next insertion will use.
    pub closed spec fn wf(self) -> bool {
        forall|k: usize| self.map@.contains_key(k) ==> k < self.next_index
    }

    /// The fonts in the map, by the index of their `Id`.
    pub closed spec fn fonts(self) -> vstd::map::Map<usize, rusttype::Font<'static>> {
        self.map@
    }

    /// The index that the next inserted font will be given.
    pub closed spec fn next_index(self) -> usize {
        self.next_index
    }

    /// Construct the new, empty `Map`.
    pub fn new() -> (r: Self)
        ensures
            r.wf(),
            r.fonts().dom() == Set::<usize>::empty(),
            r.next_index() == 0,
    {
        FontMap { next_index: 0, map: HashMap::new() }
    }

    /// Borrow the `rusttype::Font` associated with the given `font::Id`.
    pub fn get(&self, id: Id) -> (r: Option<&rusttype::Font<'static>>)
        ensures
            r is None <==> !self.fonts().contains_key(id.spec_index()),
            r matches Some(f) ==> *f == self.fonts()[id.spec_index()],
    {
        self.map.get(&id.0)
    }

    /// Adds the given `rusttype::Font` to the `Map` and returns a unique `Id` for it.
    ///
    /// The index of the next `Id` wraps around after `usize::MAX`.
    pub fn insert(&mut self, font: rusttype::Font<'static>) -> (r: Id)
        ensures
            r.spec_index() == old(self).next_index(),
            final(self).fonts() == old(self).fonts().insert(r.spec_index(), font),
            final(self).next_index() == (if old(self).next_index() == usize::MAX {
                0
            } else {
                old(self).next_index() + 1
            }),
            old(self).wf() ==> !old(self).fonts().contains_key(r.spec_index()),
            old(self).wf() && old(self).next_index() < usize::MAX ==> final(self).wf(),
    {
        let index = self.next_index;
        self.next_index = index.wrapping_add(1);
        let id = Id(index);
        self.map.insert(index, font);
        id
    }

    /// Insert a single `Font` into the map by loading it from the given bytes, as read from a font
    /// file.
    ///
    /// Where the bytes do not load as a single font, returns the error of `from_bytes` and leaves
    /// the map as it was; otherwise behaves as `insert` with the font read.
    pub fn insert_from_bytes(&mut self, bytes: Vec<u8>) -> (r: Result<Id, Error>)
        ensures
            r is Ok <==> loads_one_font(bytes@),
            r matches Err(e) ==> (e is NoFont <==> spec_fonts_in_collection(bytes@) is Some)
                && final(self).fonts() == old(self).fonts() && final(self).next_index() == old(
                self,
            ).next_index(),
            r matches Ok(id) ==> {
                &&& id.spec_index() == old(self).next_index()
                &&& final(self).fonts() == old(self).fonts().insert(
                    id.spec_index(),
                    parsed_font(bytes@),
                )
                &&& final(self).next_index() == (if old(self).next_index() == usize::MAX {
                    0
                } else {
                    old(self).next_index() + 1
                })
                &&& old(self).wf() ==> !old(self).fonts().contains_key(id.spec_index())
                &&& old(self).wf() && old(self).next_index() < usize::MAX ==> final(self).wf()
            },
    {
        match from_bytes(bytes) {
            Ok(font) => Ok(self.insert(font)),
            Err(e) => Err(e),
        }
    }

    /// Produces an iterator yielding the `Id` for each `Font` within the `Map`.
    ///
    /// The order in which the `Id`s come is that in which the underlying hash map is walked.
    pub fn ids(&self) -> (r: Ids)
        ensures
            r.wf(),
            r.remaining().len() == self.fonts().dom().len(),
            r.remaining().no_duplicates(),
            forall|k: usize|
                self.fonts().contains_key(k) <==> exists|j: int|
                    0 <= j < r.remaining().len() && (#[trigger] r.remaining()[j]).spec_index() == k,
    {
        let mut out: Vec<Id> = Vec::new();
        let ghost keys = vstd::std_specs::hash::spec_keys_iter(&self.map).remaining().unref();
        proof {
            vstd::std_specs::hash::axiom_spec_keys_iter(&self.map);
        }
        for k in iter: self.map.keys()
            invariant
                keys == iter.seq().unref(),
                out@.len() == iter.index(),
                forall|j: int| 0 <= j < iter.index() ==> out@[j] == Id(*iter.seq()[j]),
        {
            out.push(Id(*k));
        }
        let r = Ids { ids: out, next: 0 };
        proof {
            assert(r.remaining() =~= out@);
            assert forall|k: usize| self.fonts().contains_key(k) implies exists|j: int|
                0 <= j < out@.len() && (#[trigger] out@[j]).spec_index() == k by {
                assert(keys.to_set().contains(k));
                let j = choose|j: int| 0 <= j < keys.len() && keys[j] == k;
                assert(out@[j].spec_index() == k);
            }
            assert forall|k: usize| (exists|j: int|
                0 <= j < out@.len() && (#[trigger] out@[j]).spec_index() == k) implies self.fonts().contains_key(k) by {
                let j = choose|j: int| 0 <= j < out@.len() && (#[trigger] out@[j]).spec_index() == k;
                assert(keys[j] == k);
                assert(keys.to_set().contains(k));
            }
            assert forall|a: int, b: int| 0 <= a < out@.len() && 0 <= b < out@.len() && a != b
                implies out@[a] != out@[b] by {
                assert(keys[a] != keys[b]);
            }
        }
        r
    }
}

impl Ids {
    /// The position of the next `Id` lies within the collected `Id`s.
    pub closed spec fn wf(self) -> bool {
        self.next <= self.ids@.len()
    }

    /// The `Id`s not yet yielded.
    pub closed spec fn remaining(self) -> Seq<Id> {
        self.ids@.subrange(self.next as int, self.ids@.len() as int)
    }

    /// Yield the next `Id`.
    pub fn next(&mut self) -> (r: Option<Id>)
        requires
            old(self).wf(),
        ensures
            final(self).wf(),
            old(self).remaining().len() == 0 ==> r is None && final(self).remaining().len() == 0,
            old(self).remaining().len() > 0 ==> r == Some(old(self).remaining()[0])
                && final(self).remaining() == old(self).remaining().drop_first(),
    {
        if self.next < self.ids.len() {
            let id = self.ids[self.next];
            self.next = self.next + 1;
            proof {
                assert(self.remaining() =~= old(self).remaining().drop_first());
            }
            Some(id)
        } else {
            None
        }
    }
}

impl NewIds {
    /// The indices of the `Id`s not yet yielded.
    pub closed spec fn range(self) -> (usize, usize) {
        (self.index_range.start, self.index_range.end)
    }

    /// Yield the `Id` of the next index in the range.
    pub fn next(&mut self) -> (r: Option<Id>)
        ensures
            old(self).range().0 < old(self).range().1 ==> (r matches Some(id) && id.spec_index()
                == old(self).range().0)
                && final(self).range() == (
                (old(self).range().0 + 1) as usize,
                old(self).range().1,
            ),
            old(self).range().0 >= old(self).range().1 ==> r is None && final(self).range()
                == old(self).range(),
    {
        if self.index_range.start < self.index_range.end {
            let i = self.index_range.start;
            self.index_range.start = i + 1;
            Some(Id(i))
        } else {
            None
        }
    }
}

/// In a map built by `new` and `insert` without wrapping around, no index that an insertion has
/// not yet handed out holds a font: such ids stay absent.
pub proof fn lemma_unissued_ids_absent(m: FontMap, k: usize)
    requires
        m.wf(),
        k >= m.next_index(),
    ensures
        !m.fonts().contains_key(k),
{
}

/// The fonts of a map with fonts `m` and next index `next` after `insert` is called with each of
/// `fonts` in turn, none of the indices wrapping around.
pub open spec fn spec_after_inserts(
    m: vstd::map::Map<usize, rusttype::Font<'static>>,
    next: int,
    fonts: Seq<rusttype::Font<'static>>,
) -> vstd::map::Map<usize, rusttype::Font<'static>>
    decreases fonts.len(),
{
    if fonts.len() == 0 {
        m
    } else {
        spec_after_inserts(m.insert(next as usize, fonts[0]), next + 1, fonts.drop_first())
    }
}

proof fn lemma_after_inserts_keep(
    m: vstd::map::Map<usize, rusttype::Font<'static>>,
    next: int,
    fonts: Seq<rusttype::Font<'static>>,
    k: usize,
)
    requires
        m.contains_key(k),
        k < next,
        next + fonts.len() <= usize::MAX,
    ensures
        spec_after_inserts(m, next, fonts).contains_key(k),
        spec_after_inserts(m, next, fonts)[k] == m[k],
    decreases fonts.len(),
{
    if fonts.len() > 0 {
        let m2 = m.insert(next as usize, fonts[0]);
        assert(m2.contains_key(k) && m2[k] == m[k]);
        lemma_after_inserts_keep(m2, next + 1, fonts.drop_first(), k);
    }
}

proof fn lemma_after_inserts_at(
    m: vstd::map::Map<usize, rusttype::Font<'static>>,
    next: int,
    fonts: Seq<rusttype::Font<'static>>,
    i: int,
)
    requires
        0 <= next,
        0 <= i < fonts.len(),
        next + fonts.len() <= usize::MAX,
    ensures
        spec_after_inserts(m, next, fonts).contains_key((next + i) as usize),
        spec_after_inserts(m, next, fonts)[(next + i) as usize] == fonts[i],
    decreases fonts.len(),
{
    let m2 = m.insert(next as usize, fonts[0]);
    if i == 0 {
        lemma_after_inserts_keep(m2, next + 1, fonts.drop_first(), next as usize);
    } else {
        lemma_after_inserts_at(m2, next + 1, fonts.drop_first(), i - 1);
        assert(next + 1 + (i - 1) == next + i);
    }
}

proof fn lemma_after_inserts_absent(
    m: vstd::map::Map<usize, rusttype::Font<'static>>,
    next: int,
    fonts: Seq<rusttype::Font<'static>>,
    k: usize,
)
    requires
        0 <= next,
        k >= next + fonts.len(),
        forall|j: usize| m.contains_key(j) ==> j < next,
    ensures
        !spec_after_inserts(m, next, fonts).contains_key(k),
    decreases fonts.len(),
{
    if fonts.len() > 0 {
        let m2 = m.insert(next as usize, fonts[0]);
        assert forall|j: usize| m2.contains_key(j) implies j < next + 1 by {
            if j != next as usize {
                assert(m.contains_key(j));
            }
        }
        lemma_after_inserts_absent(m2, next + 1, fonts.drop_first(), k);
    } else {
        assert(!m.contains_key(k));
    }
}

/// Whether the fonts `r` hold `font` at index `k`.
pub open spec fn spec_holds_inserted(
    r: vstd::map::Map<usize, rusttype::Font<'static>>,
    k: int,
    font: rusttype::Font<'static>,
) -> bool {
    r.contains_key(k as usize) && r[k as usize] == font
}

/// Every `Id` that `insert` hands out keeps giving back its font, through any later insertions,
/// while the indices do not wrap around; and no index not yet handed out holds a font.
pub proof fn lemma_ids_keep_their_fonts(m: FontMap, fonts: Seq<rusttype::Font<'static>>)
    requires
        m.wf(),
        m.next_index() + fonts.len() <= usize::MAX,
    ensures
        forall|i: int|
            0 <= i < fonts.len() ==> #[trigger] spec_holds_inserted(
                spec_after_inserts(m.fonts(), m.next_index() as int, fonts),
                m.next_index() + i,
                fonts[i],
            ),
        forall|k: usize|
            #[trigger] m.fonts().contains_key(k) ==> spec_after_inserts(
                m.fonts(),
                m.next_index() as int,
                fonts,
            ).contains_key(k) && spec_after_inserts(m.fonts(), m.next_index() as int, fonts)[k]
                == m.fonts()[k],
        forall|k: usize|
            k >= m.next_index() + fonts.len() ==> !#[trigger] spec_after_inserts(
                m.fonts(),
                m.next_index() as int,
                fonts,
            ).contains_key(k),
{
    assert forall|i: int| 0 <= i < fonts.len() implies #[trigger] spec_holds_inserted(
        spec_after_inserts(m.fonts(), m.next_index() as int, fonts),
        m.next_index() + i,
        fonts[i],
    ) by {
        lemma_after_inserts_at(m.fonts(), m.next_index() as int, fonts, i);
    }
    assert forall|k: usize| #[trigger] m.fonts().contains_key(k) implies spec_after_inserts(
        m.fonts(),
        m.next_index() as int,
        fonts,
    ).contains_key(k) && spec_after_inserts(m.fonts(), m.next_index() as int, fonts)[k] == m.fonts()[k] by {
        lemma_after_inserts_keep(m.fonts(), m.next_index() as int, fonts, k);
    }
    assert forall|k: usize| k >= m.next_index() + fonts.len() implies !#[trigger] spec_after_inserts(
        m.fonts(),
        m.next_index() as int,
        fonts,
    ).contains_key(k) by {
        lemma_after_inserts_absent(m.fonts(), m.next_index() as int, fonts, k);
    }
}

/// A font inserted into a map is the one the map then gives back for the returned `Id`, and the
/// fonts of every other `Id` stay as they were.
pub proof fn lemma_get_after_insert(
    before: FontMap,
    after: FontMap,
    id: Id,
    font: rusttype::Font<'static>,
    other: Id,
)
    requires
        after.fonts() == before.fonts().insert(id.spec_index(), font),
    ensures
        after.fonts().contains_key(id.spec_index()),
        after.fonts()[id.spec_index()] == font,
        other.spec_index() != id.spec_index() ==> (after.fonts().contains_key(other.spec_index())
            == before.fonts().contains_key(other.spec_index())),
        other.spec_index() != id.spec_index() && before.fonts().contains_key(other.spec_index())
            ==> after.fonts()[other.spec_index()] == before.fonts()[other.spec_index()],
{
}

} // verus!
