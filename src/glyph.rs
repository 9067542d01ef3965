//! Glyph stores: the positioned glyphs that shaping produced for one text,
//! and the two walks over a character range that layout and drawing make.

use vstd::prelude::*;
use crate::geometry::{Au, Point2D, nearest_px, to_nearest_px};

verus! {

/// A glyph's index in its font face.
pub type GlyphId = u32;

/// Largest batch of glyphs a drawing backend accepts in one call.
pub const MAX_GLYPH_BATCH: usize = 0xffff_ffff;

/// One shaped glyph: which glyph, how far it moves the pen, where it sits
/// relative to the pen, and the character it was shaped from.
#[derive(Clone, Copy, Debug, PartialEq, Eq, Structural)]
pub struct GlyphEntry {
    pub id: GlyphId,
    pub advance: Au,
    pub offset: Option<Point2D>,
    pub char_index: usize,
}

/// A half-open range of character indices, `begin .. begin + length`.
#[derive(Clone, Copy, Debug, PartialEq, Eq, Structural)]
pub struct CharRange {
    pub begin: usize,
    pub length: usize,
}

impl CharRange {
    pub fn new(begin: usize, length: usize) -> (r: CharRange)
        ensures
            r == (CharRange { begin, length }),
    {
        CharRange { begin, length }
    }

    pub open spec fn lo(&self) -> int {
        self.begin as int
    }

    pub open spec fn hi(&self) -> int {
        self.begin + self.length
    }

    /// The range lies within a text of `char_len` characters.
    pub open spec fn within(&self, char_len: nat) -> bool {
        self.begin + self.length <= char_len
    }
}

/// The glyphs shaped from one text, in visual order.
#[derive(Debug)]
pub struct GlyphStore {
    pub entries: Vec<GlyphEntry>,
    pub char_len: usize,
    pub is_whitespace: bool,
}

pub struct GlyphStoreView {
    pub entries: Seq<GlyphEntry>,
    pub char_len: nat,
    pub is_whitespace: bool,
}

impl View for GlyphStore {
    type V = GlyphStoreView;

    open spec fn view(&self) -> GlyphStoreView {
        GlyphStoreView {
            entries: self.entries@,
            char_len: self.char_len as nat,
            is_whitespace: self.is_whitespace,
        }
    }
}

impl GlyphStore {
    /// An empty store for a text of `length` characters.
    pub fn new(length: usize, is_whitespace: bool) -> (r: GlyphStore)
        ensures
            r@.entries == Seq::<GlyphEntry>::empty(),
            r@.char_len == length,
            r@.is_whitespace == is_whitespace,
    {
        GlyphStore { entries: Vec::new(), char_len: length, is_whitespace }
    }

    /// Appends a glyph after those already stored.
    pub fn add_glyph(&mut self, glyph: GlyphEntry)
        ensures
            final(self)@.entries == old(self)@.entries.push(glyph),
            final(self)@.char_len == old(self)@.char_len,
            final(self)@.is_whitespace == old(self)@.is_whitespace,
    {
        self.entries.push(glyph);
    }

    pub fn len(&self) -> (r: usize)
        ensures
            r == self@.entries.len(),
    {
        self.entries.len()
    }
}

/// Whether a glyph belongs to a character of `lo .. hi`.
pub open spec fn in_range(g: GlyphEntry, lo: int, hi: int) -> bool {
    lo <= g.char_index < hi
}

/// Sum of the advances of the glyphs in `s` whose character lies in
/// `lo .. hi`.
pub open spec fn range_advance(s: Seq<GlyphEntry>, lo: int, hi: int) -> int
    decreases s.len(),
{
    if s.len() == 0 {
        0
    } else {
        let g = s.last();
        range_advance(s.drop_last(), lo, hi) + if in_range(g, lo, hi) {
            g.advance.0 as int
        } else {
            0
        }
    }
}

/// The glyph of a draw batch: its id and its position in whole device pixels.
#[derive(Clone, Copy, Debug, PartialEq, Eq, Structural)]
pub struct PositionedGlyph {
    pub id: GlyphId,
    pub x: i64,
    pub y: i64,
}

pub open spec fn offset_x(g: GlyphEntry) -> int {
    match g.offset {
        Some(p) => p.x.0 as int,
        None => 0,
    }
}

pub open spec fn offset_y(g: GlyphEntry) -> int {
    match g.offset {
        Some(p) => p.y.0 as int,
        None => 0,
    }
}

/// The glyphs of `s` whose character lies in `lo .. hi`, each placed at the
/// pen position (the origin moved right by the advances of the glyphs in the
/// range before it) plus its own offset, rounded to device pixels.
pub open spec fn glyph_batch(s: Seq<GlyphEntry>, lo: int, hi: int, origin: Point2D) -> Seq<
    PositionedGlyph,
>
    decreases s.len(),
{
    if s.len() == 0 {
        Seq::empty()
    } else {
        let g = s.last();
        let before = glyph_batch(s.drop_last(), lo, hi, origin);
        if in_range(g, lo, hi) {
            let pen = origin.x.0 + range_advance(s.drop_last(), lo, hi);
            before.push(
                PositionedGlyph {
                    id: g.id,
                    x: nearest_px(pen + offset_x(g)) as i64,
                    y: nearest_px(origin.y.0 + offset_y(g)) as i64,
                },
            )
        } else {
            before
        }
    }
}

/// Each glyph moves the sum by less than 2^31 in either direction.
pub proof fn lemma_range_advance_bound(s: Seq<GlyphEntry>, lo: int, hi: int)
    ensures
        -(s.len() * 0x8000_0000) <= range_advance(s, lo, hi) <= s.len() * 0x8000_0000,
    decreases s.len(),
{
    if s.len() > 0 {
        lemma_range_advance_bound(s.drop_last(), lo, hi);
    }
}

/// The number of glyphs a range's batch holds.
pub open spec fn count_in_range(s: Seq<GlyphEntry>, lo: int, hi: int) -> nat
    decreases s.len(),
{
    if s.len() == 0 {
        0
    } else {
        count_in_range(s.drop_last(), lo, hi) + if in_range(s.last(), lo, hi) {
            1nat
        } else {
            0nat
        }
    }
}

pub proof fn lemma_glyph_batch_len(s: Seq<GlyphEntry>, lo: int, hi: int, origin: Point2D)
    ensures
        glyph_batch(s, lo, hi, origin).len() == count_in_range(s, lo, hi),
    decreases s.len(),
{
    if s.len() > 0 {
        lemma_glyph_batch_len(s.drop_last(), lo, hi, origin);
    }
}

/// Measurement is additive: the advance of `lo .. hi` is the advance of
/// `lo .. mid` plus that of `mid .. hi`, for any split point between them.
pub proof fn lemma_range_advance_split(s: Seq<GlyphEntry>, lo: int, mid: int, hi: int)
    requires
        lo <= mid <= hi,
    ensures
        range_advance(s, lo, mid) + range_advance(s, mid, hi) == range_advance(s, lo, hi),
    decreases s.len(),
{
    if s.len() > 0 {
        lemma_range_advance_split(s.drop_last(), lo, mid, hi);
    }
}

/// Sum of the advances of the consecutive pieces `cuts[i] .. cuts[i + 1]`.
pub open spec fn pieces_advance(s: Seq<GlyphEntry>, cuts: Seq<int>) -> int
    decreases cuts.len(),
{
    if cuts.len() <= 1 {
        0
    } else {
        pieces_advance(s, cuts.drop_last()) + range_advance(
            s,
            cuts[cuts.len() - 2],
            cuts.last(),
        )
    }
}

/// Measuring a whole range gives the same total advance as measuring each
/// piece of any partition of it into contiguous sub-ranges and adding up.
pub proof fn lemma_partition_advance(s: Seq<GlyphEntry>, cuts: Seq<int>)
    requires
        cuts.len() >= 1,
        forall|i: int| 0 <= i < cuts.len() - 1 ==> cuts[i] <= #[trigger] cuts[i + 1],
    ensures
        pieces_advance(s, cuts) == range_advance(s, cuts[0], cuts.last()),
    decreases cuts.len(),
{
    if cuts.len() == 1 {
        assert(range_advance(s, cuts[0], cuts[0]) == 0) by {
            lemma_range_advance_empty(s, cuts[0]);
        }
    } else {
        let front = cuts.drop_last();
        assert forall|i: int| 0 <= i < front.len() - 1 implies front[i] <= #[trigger] front[i
            + 1] by {
            assert(cuts[i] <= cuts[i + 1]);
        }
        lemma_partition_advance(s, front);
        lemma_sorted_cuts(cuts, 0, cuts.len() - 2);
        assert(cuts[cuts.len() - 2] <= cuts[cuts.len() - 2 + 1]);
        lemma_range_advance_split(s, cuts[0], cuts[cuts.len() - 2], cuts.last());
    }
}

/// An empty character range holds no advance.
pub proof fn lemma_range_advance_empty(s: Seq<GlyphEntry>, lo: int)
    ensures
        range_advance(s, lo, lo) == 0,
    decreases s.len(),
{
    if s.len() > 0 {
        lemma_range_advance_empty(s.drop_last(), lo);
    }
}

proof fn lemma_sorted_cuts(cuts: Seq<int>, i: int, j: int)
    requires
        0 <= i <= j < cuts.len(),
        forall|k: int| 0 <= k < cuts.len() - 1 ==> cuts[k] <= #[trigger] cuts[k + 1],
    ensures
        cuts[i] <= cuts[j],
    decreases j - i,
{
    if i < j {
        lemma_sorted_cuts(cuts, i, j - 1);
        assert(cuts[j - 1] <= cuts[j - 1 + 1]);
    }
}

/// An empty character range holds no glyph, so drawing it makes no
/// backend call.
pub proof fn lemma_empty_range_no_glyphs(s: Seq<GlyphEntry>, lo: int)
    ensures
        count_in_range(s, lo, lo) == 0,
    decreases s.len(),
{
    if s.len() > 0 {
        lemma_empty_range_no_glyphs(s.drop_last(), lo);
    }
}

/// Advance of the glyphs of `store` that belong to `range`.
pub fn advance_for_range(store: &GlyphStore, range: &CharRange) -> (r: Au)
    requires
        range.begin + range.length <= usize::MAX,
        i32::MIN <= range_advance(store@.entries, range.lo(), range.hi()) <= i32::MAX,
    ensures
        r.0 == range_advance(store@.entries, range.lo(), range.hi()),
{
    let lo = range.begin;
    let hi = range.begin + range.length;
    let ghost s = store@.entries;
    let mut acc: i128 = 0;
    let mut i: usize = 0;
    while i < store.entries.len()
        invariant
            i <= s.len(),
            s == store@.entries,
            lo == range.lo(),
            hi == range.hi(),
            acc == range_advance(s.take(i as int), lo as int, hi as int),
        decreases s.len() - i,
    {
        let g = store.entries[i];
        proof {
            assert(s.take(i + 1).drop_last() =~= s.take(i as int));
            lemma_range_advance_bound(s.take(i as int), lo as int, hi as int);
        }
        if lo <= g.char_index && g.char_index < hi {
            acc = acc + g.advance.0 as i128;
        }
        i = i + 1;
    }
    proof {
        assert(s.take(s.len() as int) =~= s);
    }
    Au(acc as i32)
}

/// The draw batch of the glyphs of `store` that belong to `range`, laid out
/// from `origin`.
pub fn batch_for_range(store: &GlyphStore, range: &CharRange, origin: Point2D) -> (r: Vec<
    PositionedGlyph,
>)
    requires
        range.begin + range.length <= usize::MAX,
        store@.entries.len() <= MAX_GLYPH_BATCH,
    ensures
        r@ == glyph_batch(store@.entries, range.lo(), range.hi(), origin),
        r@.len() == count_in_range(store@.entries, range.lo(), range.hi()),
{
    let lo = range.begin;
    let hi = range.begin + range.length;
    let ghost s = store@.entries;
    let mut out: Vec<PositionedGlyph> = Vec::new();
    let mut pen: i128 = origin.x.0 as i128;
    let mut i: usize = 0;
    while i < store.entries.len()
        invariant
            i <= s.len(),
            s == store@.entries,
            s.len() <= MAX_GLYPH_BATCH,
            lo == range.lo(),
            hi == range.hi(),
            pen == origin.x.0 + range_advance(s.take(i as int), lo as int, hi as int),
            out@ == glyph_batch(s.take(i as int), lo as int, hi as int, origin),
        decreases s.len() - i,
    {
        let g = store.entries[i];
        proof {
            assert(s.take(i + 1).drop_last() =~= s.take(i as int));
            lemma_range_advance_bound(s.take(i as int), lo as int, hi as int);
        }
        if lo <= g.char_index && g.char_index < hi {
            let off = match g.offset {
                Some(p) => p,
                None => Point2D::zero(),
            };
            let x = to_nearest_px(pen + off.x.0 as i128);
            let y = to_nearest_px(origin.y.0 as i128 + off.y.0 as i128);
            out.push(PositionedGlyph { id: g.id, x: x as i64, y: y as i64 });
            pen = pen + g.advance.0 as i128;
        }
        i = i + 1;
    }
    proof {
        assert(s.take(s.len() as int) =~= s);
        lemma_glyph_batch_len(s, lo as int, hi as int, origin);
    }
    out
}

} // verus!
