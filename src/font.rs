//! Font instances: one loaded face used at one style, with the caches and
//! lazily built resources that shaping, measuring and drawing share.

use vstd::prelude::*;
use std::collections::HashMap;
use std::sync::Arc;
use vstd::string::StrSliceExecFns;
use crate::geometry::{Au, Point2D, Rect, Size2D};
use crate::glyph::{
    CharRange,
    pieces_advance,
    lemma_partition_advance,
    GlyphEntry,
    GlyphId,
    GlyphStore,
    GlyphStoreView,
    MAX_GLYPH_BATCH,
    PositionedGlyph,
    advance_for_range,
    batch_for_range,
    count_in_range,
    glyph_batch,
    range_advance,
};
use crate::platform::{
    FontHandle,
    FontHandleMethods,
    FontTable,
    FontTableTag,
    first_value,
    same_face,
};
use crate::style::{
    FontDescriptor,
    FontDescriptorView,
    FontMetrics,
    FontSelector,
    FontStyleView,
    SpecifiedFontStyle,
    UsedFontStyle,
};

verus! {

broadcast use vstd::std_specs::hash::group_hash_axioms;

/// Advance used for a glyph whose face cannot report one: ten pixels.
pub const FALLBACK_ADVANCE: i32 = 600;

/// The glyph a face draws for a character it has no glyph of.
pub const NOTDEF_GLYPH: GlyphId = 0;

/// The glyph shaping gives a character: the face's own, or the missing-glyph
/// glyph.
pub open spec fn glyph_id_for(h: FontHandle, c: char) -> GlyphId {
    match h.glyph_for(c) {
        Some(g) => g,
        None => NOTDEF_GLYPH,
    }
}

/// A glyph's advance: what the face reports, or `fallback` where it reports
/// nothing.
pub open spec fn advance_of(h: FontHandle, fallback: Au, g: GlyphId) -> Au {
    match h.advance_for(g) {
        Some(a) => a,
        None => fallback,
    }
}

/// The glyphs shaping gives `text`: one per character, in order, each with
/// its glyph and advance and no offset.
pub open spec fn shaped_entries(h: FontHandle, fallback: Au, text: Seq<char>) -> Seq<GlyphEntry> {
    Seq::new(
        text.len(),
        |i: int|
            GlyphEntry {
                id: glyph_id_for(h, text[i]),
                advance: advance_of(h, fallback, glyph_id_for(h, text[i])),
                offset: None,
                char_index: i as usize,
            },
    )
}

/// Maps text to glyphs for one font. It is built once per font, on the
/// first shaping request.
#[derive(Clone, Copy, Debug, PartialEq, Eq, Structural)]
pub struct Shaper {
    pub fallback_advance: Au,
}

impl Shaper {
    pub fn new(font: &Font) -> (r: Shaper)
        ensures
            r.fallback_advance == font.fallback_advance,
    {
        Shaper { fallback_advance: font.fallback_advance }
    }

    /// Appends to `glyphs` the glyphs of `text` in `handle`'s face.
    pub fn shape_text(&self, handle: &FontHandle, text: &str, glyphs: &mut GlyphStore)
        ensures
            final(glyphs)@.entries == old(glyphs)@.entries + shaped_entries(
                *handle,
                self.fallback_advance,
                text@,
            ),
            final(glyphs)@.char_len == old(glyphs)@.char_len,
            final(glyphs)@.is_whitespace == old(glyphs)@.is_whitespace,
    {
        let n = text.unicode_len();
        let ghost start = glyphs@.entries;
        let ghost all = shaped_entries(*handle, self.fallback_advance, text@);
        let mut i: usize = 0;
        while i < n
            invariant
                n == text@.len(),
                i <= n,
                all == shaped_entries(*handle, self.fallback_advance, text@),
                glyphs@.entries == start + all.take(i as int),
                glyphs@.char_len == old(glyphs)@.char_len,
                glyphs@.is_whitespace == old(glyphs)@.is_whitespace,
            decreases n - i,
        {
            let c = text.get_char(i);
            let id = match handle.glyph_index(c) {
                Some(g) => g,
                None => NOTDEF_GLYPH,
            };
            let advance = match handle.glyph_h_advance(id) {
                Some(a) => a,
                None => self.fallback_advance,
            };
            glyphs.add_glyph(GlyphEntry { id, advance, offset: None, char_index: i });
            proof {
                assert(all.take(i + 1) =~= all.take(i as int).push(all[i as int]));
            }
            i = i + 1;
        }
        assert(all.take(n as int) =~= all);
    }
}

/// Shaped texts of one font, oldest first.
#[derive(Debug)]
pub struct ShapeCache {
    pub entries: Vec<(String, Arc<GlyphStore>)>,
}

impl View for ShapeCache {
    type V = Seq<(Seq<char>, GlyphStoreView)>;

    open spec fn view(&self) -> Seq<(Seq<char>, GlyphStoreView)> {
        self.entries@.map_values(|e: (String, Arc<GlyphStore>)| (e.0@, e.1@))
    }
}

impl ShapeCache {
    /// The glyph store cached for `text`, if any.
    pub open spec fn get(&self, text: Seq<char>) -> Option<GlyphStoreView> {
        first_value(self@, text)
    }

    pub fn new() -> (r: ShapeCache)
        ensures
            r@ == Seq::<(Seq<char>, GlyphStoreView)>::empty(),
    {
        ShapeCache { entries: Vec::new() }
    }

    /// The cached store for `text`, shared with the cache.
    pub fn find(&self, text: &String) -> (r: Option<Arc<GlyphStore>>)
        ensures
            match r {
                Some(g) => self.get(text@) == Some(g@),
                None => self.get(text@) is None,
            },
    {
        let ghost s = self@;
        let mut i: usize = 0;
        assert(s.skip(0) =~= s);
        while i < self.entries.len()
            invariant
                i <= s.len(),
                s == self@,
                first_value(s, text@) == first_value(s.skip(i as int), text@),
            decreases s.len() - i,
        {
            assert(s.skip(i as int).drop_first() =~= s.skip(i + 1));
            if self.entries[i].0 == *text {
                return Some(self.entries[i].1.clone());
            }
            i = i + 1;
        }
        None
    }

    /// Records `glyphs` as the store for `text`, which has none yet.
    pub fn insert(&mut self, text: String, glyphs: Arc<GlyphStore>)
        requires
            old(self).get(text@) is None,
        ensures
            final(self)@ == old(self)@.push((text@, glyphs@)),
            forall|k: Seq<char>| #[trigger]
                final(self).get(k) == if k == text@ {
                    Some(glyphs@)
                } else {
                    old(self).get(k)
                },
    {
        let ghost key = text@;
        let ghost v = glyphs@;
        self.entries.push((text, glyphs));
        assert(self@ =~= old(self)@.push((key, v)));
        assert forall|k: Seq<char>| #[trigger]
            self.get(k) == if k == key {
                Some(v)
            } else {
                old(self).get(k)
            } by {
            lemma_first_value_push(old(self)@, key, v, k);
        }
    }
}


/// Drawing backends a scaled font can be built for.
#[derive(Clone, Copy, Debug, PartialEq, Eq, Structural)]
pub enum BackendType {
    NoBackend,
    Direct2D,
    CoreGraphics,
    CoreGraphicsAccelerated,
    Cairo,
    Skia,
    Recording,
}

/// A colour, eight bits per channel.
#[derive(Clone, Copy, Debug, PartialEq, Eq, Structural)]
pub struct Color {
    pub r: u8,
    pub g: u8,
    pub b: u8,
    pub a: u8,
}

/// A solid-colour paint.
#[derive(Clone, Copy, Debug, PartialEq, Eq, Structural)]
pub struct ColorPattern {
    pub color: Color,
}

impl ColorPattern {
    pub fn new(color: Color) -> (r: ColorPattern)
        ensures
            r.color == color,
    {
        ColorPattern { color }
    }
}

/// Composition bits of the backend's default drawing mode.
pub const DEFAULT_DRAW_FIELDS: u16 = 0x0200;

/// Opacity, 255 being fully opaque, and composition of a fill.
#[derive(Clone, Copy, Debug, PartialEq, Eq, Structural)]
pub struct DrawOptions {
    pub alpha: u8,
    pub fields: u16,
}

/// The native drawing font of a face at one size for one backend.
#[derive(Debug)]
pub struct ScaledFont {
    pub face_identifier: String,
    pub pt_size: u32,
    pub backend: BackendType,
}

impl ScaledFont {
    pub open spec fn describes(&self, face: Seq<char>, pt_size: u32, backend: BackendType) -> bool {
        &&& self.face_identifier@ == face
        &&& self.pt_size == pt_size
        &&& self.backend == backend
    }

    pub fn copy(&self) -> (r: ScaledFont)
        ensures
            r.face_identifier@ == self.face_identifier@,
            r.pt_size == self.pt_size,
            r.backend == self.backend,
    {
        ScaledFont {
            face_identifier: self.face_identifier.clone(),
            pt_size: self.pt_size,
            backend: self.backend,
        }
    }
}

/// One batched fill of glyphs, the single backend call a draw makes.
#[derive(Debug)]
pub struct FillGlyphs {
    pub font: ScaledFont,
    pub glyphs: Vec<PositionedGlyph>,
    pub pattern: ColorPattern,
    pub options: DrawOptions,
}

/// The CSS `text-decoration` lines of a run.
#[derive(Clone, Copy, Debug, PartialEq, Eq, Structural)]
pub struct TextDecoration {
    pub underline: bool,
    pub overline: bool,
    pub line_through: bool,
}

impl TextDecoration {
    /// No line at all.
    pub fn default_none() -> (r: TextDecoration)
        ensures
            r == (TextDecoration { underline: false, overline: false, line_through: false }),
    {
        TextDecoration { underline: false, overline: false, line_through: false }
    }
}

/// Measured geometry of a span of shaped text.
#[derive(Clone, Copy, Debug, PartialEq, Eq, Structural)]
pub struct RunMetrics {
    /// Signed: negative advances may make it negative.
    pub advance_width: Au,
    pub ascent: Au,
    pub descent: Au,
    /// Relative to the left end of the baseline, so its top is at `-ascent`.
    pub bounding_box: Rect,
}

/// The metrics of a run with the given advance, ascent and descent: the
/// loose box, full width by full height.
pub open spec fn run_metrics(advance: int, ascent: Au, descent: Au) -> RunMetrics {
    RunMetrics {
        advance_width: Au(advance as i32),
        ascent,
        descent,
        bounding_box: Rect {
            origin: Point2D { x: Au(0), y: Au(-ascent.0 as i32) },
            size: Size2D { width: Au(advance as i32), height: Au((ascent.0 + descent.0) as i32) },
        },
    }
}

impl RunMetrics {
    pub fn new(advance: Au, ascent: Au, descent: Au) -> (r: RunMetrics)
        requires
            ascent.0 >= 0,
            descent.0 >= 0,
            ascent.0 + descent.0 <= i32::MAX,
        ensures
            r == run_metrics(advance.0 as int, ascent, descent),
    {
        let bounds = Rect {
            origin: Point2D { x: Au(0), y: Au(-ascent.0) },
            size: Size2D { width: advance, height: Au(ascent.0 + descent.0) },
        };
        RunMetrics { advance_width: advance, bounding_box: bounds, ascent, descent }
    }
}

/// A font instance: a face used at one style. Layout measures with it and
/// the renderer draws with it.
#[derive(Debug)]
pub struct Font {
    pub handle: FontHandle,
    pub azure_font: Option<ScaledFont>,
    pub shaper: Option<Shaper>,
    pub style: UsedFontStyle,
    pub metrics: FontMetrics,
    pub backend: BackendType,
    pub shape_cache: ShapeCache,
    pub glyph_advance_cache: HashMap<u32, Au>,
    pub fallback_advance: Au,
}

impl Font {
    /// The metrics are the face's; every cached shape and advance is what
    /// the face gives now; the lazily built parts belong to this font.
    pub open spec fn wf(&self) -> bool {
        &&& self.metrics == self.handle.face_metrics()
        &&& self.metrics.wf()
        &&& forall|t: Seq<char>| #[trigger]
            self.shape_cache.get(t) matches Some(v) ==> v.entries == shaped_entries(
                self.handle,
                self.fallback_advance,
                t,
            ) && v.char_len == t.len()
        &&& forall|g: u32| #[trigger]
            self.glyph_advance_cache@.contains_key(g) ==> self.glyph_advance_cache@[g]
                == advance_of(self.handle, self.fallback_advance, g)
        &&& self.azure_font matches Some(f) ==> f.describes(
            self.handle.face_id(),
            self.style.pt_size,
            self.backend,
        )
        &&& self.shaper matches Some(s) ==> s.fallback_advance == self.fallback_advance
    }

    /// Everything but the caches and lazily built parts is as in `o`.
    pub open spec fn same_font(&self, o: &Font) -> bool {
        &&& self.handle == o.handle
        &&& self.style == o.style
        &&& self.metrics == o.metrics
        &&& self.backend == o.backend
        &&& self.fallback_advance == o.fallback_advance
    }

    /// A glyph's advance in this font.
    pub open spec fn advance(&self, g: GlyphId) -> Au {
        advance_of(self.handle, self.fallback_advance, g)
    }

    /// The glyphs this font shapes `text` into.
    pub open spec fn shaped(&self, text: Seq<char>) -> Seq<GlyphEntry> {
        shaped_entries(self.handle, self.fallback_advance, text)
    }

    /// A font fresh from `handle` at `style` for `backend`: nothing shaped,
    /// measured or built yet.
    pub open spec fn fresh_from(
        &self,
        handle: FontHandle,
        style: FontStyleView,
        backend: BackendType,
    ) -> bool {
        &&& self.handle == handle
        &&& self.style@ == style
        &&& self.metrics == handle.face_metrics()
        &&& self.backend == backend
        &&& self.fallback_advance == Au(FALLBACK_ADVANCE)
        &&& self.azure_font is None
        &&& self.shaper is None
        &&& self.shape_cache@ == Seq::<(Seq<char>, GlyphStoreView)>::empty()
        &&& self.glyph_advance_cache@ == Map::<u32, Au>::empty()
    }

    /// The plain-value identity of the font.
    pub open spec fn descriptor(&self) -> FontDescriptorView {
        FontDescriptorView { style: self.style@, selector: self.handle.face_id() }
    }

    /// A font from a face the platform loaded out of a buffer; the platform's
    /// failure to load one is the font's failure.
    pub fn new_from_buffer(
        loaded: Result<FontHandle, ()>,
        style: &SpecifiedFontStyle,
        backend: BackendType,
    ) -> (r: Result<Font, ()>)
        requires
            loaded matches Ok(h) ==> h.face_metrics().wf(),
        ensures
            r is Ok <==> loaded is Ok,
            match (r, loaded) {
                (Ok(f), Ok(h)) => f.wf() && f.fresh_from(h, style@, backend),
                _ => true,
            },
    {
        let handle = match loaded {
            Ok(handle) => handle,
            Err(()) => return Err(()),
        };
        Ok(Font::new_from_adopted_handle(handle, style, backend))
    }

    /// A font from a face already loaded.
    pub fn new_from_adopted_handle(
        handle: FontHandle,
        style: &SpecifiedFontStyle,
        backend: BackendType,
    ) -> (r: Font)
        requires
            handle.face_metrics().wf(),
        ensures
            r.wf(),
            r.fresh_from(handle, style@, backend),
    {
        let metrics = handle.get_metrics();
        Font {
            handle,
            azure_font: None,
            shaper: None,
            style: style.copy(),
            metrics,
            backend,
            shape_cache: ShapeCache::new(),
            glyph_advance_cache: HashMap::new(),
            fallback_advance: Au(FALLBACK_ADVANCE),
        }
    }

    /// The same font with another fallback advance. Shapes and advances
    /// remembered under the old one are dropped, and so is the shaper.
    pub fn with_fallback_advance(self, fallback: Au) -> (r: Font)
        requires
            self.wf(),
        ensures
            r.wf(),
            r.handle == self.handle,
            r.style == self.style,
            r.metrics == self.metrics,
            r.backend == self.backend,
            r.fallback_advance == fallback,
            r.azure_font == self.azure_font,
            r.shaper is None,
            r.shape_cache@ == Seq::<(Seq<char>, GlyphStoreView)>::empty(),
            r.glyph_advance_cache@ == Map::<u32, Au>::empty(),
    {
        Font {
            handle: self.handle,
            azure_font: self.azure_font,
            shaper: None,
            style: self.style,
            metrics: self.metrics,
            backend: self.backend,
            shape_cache: ShapeCache::new(),
            glyph_advance_cache: HashMap::new(),
            fallback_advance: fallback,
        }
    }

    /// The font's shaper, built on first use and kept.
    fn make_shaper(&mut self) -> (r: Shaper)
        requires
            old(self).wf(),
        ensures
            final(self).wf(),
            final(self).same_font(old(self)),
            final(self).shaper == Some(r),
            old(self).shaper matches Some(s) ==> s == r,
            r.fallback_advance == old(self).fallback_advance,
            final(self).shape_cache == old(self).shape_cache,
            final(self).glyph_advance_cache == old(self).glyph_advance_cache,
            final(self).azure_font == old(self).azure_font,
    {
        match self.shaper {
            Some(shaper) => shaper,
            None => {
                let shaper = Shaper::new(self);
                self.shaper = Some(shaper);
                shaper
            },
        }
    }

    /// A raw table of the face; `None` where it has no such table.
    pub fn get_table_for_tag(&self, tag: FontTableTag) -> (r: Option<FontTable>)
        ensures
            match r {
                Some(t) => self.handle.table_for(tag) == Some(t.data@),
                None => self.handle.table_for(tag) is None,
            },
    {
        self.handle.get_table_for_tag(tag)
    }

    fn create_azure_font(&self) -> (r: ScaledFont)
        ensures
            r.describes(self.handle.face_id(), self.style.pt_size, self.backend),
    {
        ScaledFont {
            face_identifier: self.handle.face_identifier(),
            pt_size: self.style.pt_size,
            backend: self.backend,
        }
    }

    /// The font's native drawing font, built on first use and kept.
    fn get_azure_font(&mut self) -> (r: ScaledFont)
        requires
            old(self).wf(),
        ensures
            final(self).wf(),
            final(self).same_font(old(self)),
            final(self).azure_font is Some,
            old(self).azure_font is Some ==> final(self).azure_font == old(self).azure_font,
            r.describes(old(self).handle.face_id(), old(self).style.pt_size, old(self).backend),
            final(self).shape_cache == old(self).shape_cache,
            final(self).glyph_advance_cache == old(self).glyph_advance_cache,
            final(self).shaper == old(self).shaper,
    {
        match &self.azure_font {
            Some(f) => {
                return f.copy();
            },
            None => {},
        }
        let scaled_font = self.create_azure_font();
        let r = scaled_font.copy();
        self.azure_font = Some(scaled_font);
        r
    }

    /// The face's glyph for a character; `None` where it has none.
    pub fn glyph_index(&self, codepoint: char) -> (r: Option<GlyphId>)
        ensures
            r == self.handle.glyph_for(codepoint),
    {
        self.handle.glyph_index(codepoint)
    }

    /// The plain-value identity of this font: its style and its face.
    pub fn get_descriptor(&self) -> (r: FontDescriptor)
        ensures
            r@ == self.descriptor(),
    {
        FontDescriptor::new(
            self.style.copy(),
            FontSelector::SelectorPlatformIdentifier(self.handle.face_identifier()),
        )
    }

    /// A glyph's horizontal advance: the face's, or the fallback advance
    /// where the face reports none. Remembered for the font's lifetime.
    pub fn glyph_h_advance(&mut self, glyph: GlyphId) -> (r: Au)
        requires
            old(self).wf(),
        ensures
            final(self).wf(),
            advance_step(old(self), glyph, final(self), r),
            keeps_caches(old(self), final(self)),
    {
        match self.glyph_advance_cache.get(&glyph) {
            Some(a) => {
                let a = *a;
                assert(self.glyph_advance_cache@.insert(glyph, a) =~= self.glyph_advance_cache@);
                a
            },
            None => {
                let a = match self.handle.glyph_h_advance(glyph) {
                    Some(adv) => adv,
                    None => self.fallback_advance,
                };
                self.glyph_advance_cache.insert(glyph, a);
                a
            },
        }
    }

    /// The glyphs of `text` in this font. A text shaped before gets the
    /// store shaped then, shared, whatever `is_whitespace` says now; a new
    /// text is shaped, tagged with `is_whitespace`, and remembered.
    pub fn shape_text(&mut self, text: String, is_whitespace: bool) -> (r: Arc<GlyphStore>)
        requires
            old(self).wf(),
        ensures
            final(self).wf(),
            shape_step(old(self), text@, is_whitespace, final(self), r@),
            keeps_caches(old(self), final(self)),
    {
        let shaper = self.make_shaper();
        match self.shape_cache.find(&text) {
            Some(g) => g,
            None => {
                let n = text.as_str().unicode_len();
                let mut glyphs = GlyphStore::new(n, is_whitespace);
                shaper.shape_text(&self.handle, text.as_str(), &mut glyphs);
                assert(glyphs@.entries =~= self.shaped(text@));
                let g = Arc::new(glyphs);
                self.shape_cache.insert(text, g.clone());
                g
            },
        }
    }

    /// Metrics of the characters `range` of `run`.
    pub fn measure_text(&self, run: &TextRun, range: &CharRange) -> (r: RunMetrics)
        requires
            self.wf(),
            range.within(run.glyphs@.char_len),
            i32::MIN <= range_advance(run.glyphs@.entries, range.lo(), range.hi()) <= i32::MAX,
        ensures
            r == run_metrics(
                range_advance(run.glyphs@.entries, range.lo(), range.hi()),
                self.metrics.ascent,
                self.metrics.descent,
            ),
    {
        let advance = advance_for_range(&run.glyphs, range);
        RunMetrics::new(advance, self.metrics.ascent, self.metrics.descent)
    }

    /// Metrics of the characters `slice_range` of one glyph store.
    pub fn measure_text_for_slice(&self, glyphs: &GlyphStore, slice_range: &CharRange) -> (r:
        RunMetrics)
        requires
            self.wf(),
            slice_range.within(glyphs@.char_len),
            i32::MIN <= range_advance(glyphs@.entries, slice_range.lo(), slice_range.hi())
                <= i32::MAX,
        ensures
            r == run_metrics(
                range_advance(glyphs@.entries, slice_range.lo(), slice_range.hi()),
                self.metrics.ascent,
                self.metrics.descent,
            ),
    {
        let advance = advance_for_range(glyphs, slice_range);
        RunMetrics::new(advance, self.metrics.ascent, self.metrics.descent)
    }

    /// The backend call that draws the characters `range` of `run` with
    /// their baseline starting at `baseline_origin`: one fill of all their
    /// glyphs, or none at all where the range holds no glyph. The native
    /// drawing font is built, on first need, only for a call that draws;
    /// a range with no glyph touches no backend at all.
    pub fn draw_text_into_context(
        &mut self,
        run: &TextRun,
        range: &CharRange,
        baseline_origin: Point2D,
        color: Color,
    ) -> (r: Option<FillGlyphs>)
        requires
            old(self).wf(),
            range.within(run.glyphs@.char_len),
            run.glyphs@.entries.len() <= MAX_GLYPH_BATCH,
        ensures
            final(self).wf(),
            final(self).same_font(old(self)),
            final(self).shape_cache == old(self).shape_cache,
            final(self).glyph_advance_cache == old(self).glyph_advance_cache,
            final(self).shaper == old(self).shaper,
            r is Some ==> final(self).azure_font is Some,
            r is None ==> final(self).azure_font == old(self).azure_font,
            old(self).azure_font is Some ==> final(self).azure_font == old(self).azure_font,
            keeps_caches(old(self), final(self)),
            r is None <==> count_in_range(run.glyphs@.entries, range.lo(), range.hi()) == 0,
            r matches Some(call) ==> {
                &&& call.glyphs@ == glyph_batch(
                    run.glyphs@.entries,
                    range.lo(),
                    range.hi(),
                    baseline_origin,
                )
                &&& call.font.describes(
                    old(self).handle.face_id(),
                    old(self).style.pt_size,
                    old(self).backend,
                )
                &&& call.pattern.color == color
                &&& call.options == (DrawOptions { alpha: 255, fields: DEFAULT_DRAW_FIELDS })
            },
    {
        let glyphs = batch_for_range(&run.glyphs, range, baseline_origin);
        if glyphs.len() == 0 {
            return None;
        }
        let font = self.get_azure_font();
        let pattern = ColorPattern::new(color);
        let options = DrawOptions { alpha: 255, fields: DEFAULT_DRAW_FIELDS };
        Some(FillGlyphs { font, glyphs, pattern, options })
    }
}

/// What every call on a font leaves of it: the same face, style and
/// fallback; every shape and advance it remembered, unchanged; and the
/// shaper and drawing font it had built.
pub open spec fn keeps_caches(pre: &Font, post: &Font) -> bool {
    &&& post.same_font(pre)
    &&& forall|t: Seq<char>| #[trigger]
        pre.shape_cache.get(t) is Some ==> post.shape_cache.get(t) == pre.shape_cache.get(t)
    &&& forall|g: u32| #[trigger]
        pre.glyph_advance_cache@.contains_key(g) ==> post.glyph_advance_cache@.contains_key(g)
            && post.glyph_advance_cache@[g] == pre.glyph_advance_cache@[g]
    &&& pre.shaper is Some ==> post.shaper == pre.shaper
    &&& pre.azure_font is Some ==> post.azure_font == pre.azure_font
}

/// Calls one after another keep what each of them keeps.
pub proof fn lemma_keeps_caches_trans(a: &Font, b: &Font, c: &Font)
    requires
        keeps_caches(a, b),
        keeps_caches(b, c),
    ensures
        keeps_caches(a, c),
{
    assert forall|t: Seq<char>| #[trigger] a.shape_cache.get(t) is Some implies c.shape_cache.get(
        t,
    ) == a.shape_cache.get(t) by {
        assert(b.shape_cache.get(t) is Some);
    }
    assert forall|g: u32| #[trigger]
        a.glyph_advance_cache@.contains_key(g) implies c.glyph_advance_cache@.contains_key(g)
        && c.glyph_advance_cache@[g] == a.glyph_advance_cache@[g] by {
        assert(b.glyph_advance_cache@.contains_key(g));
    }
}

/// A call that does nothing keeps everything.
pub proof fn lemma_keeps_caches_refl(a: &Font)
    ensures
        keeps_caches(a, a),
{
}

/// What one advance query does: it answers the font's advance for the glyph
/// and remembers it, and changes nothing else.
pub open spec fn advance_step(pre: &Font, glyph: GlyphId, post: &Font, r: Au) -> bool {
    &&& post.same_font(pre)
    &&& r == pre.advance(glyph)
    &&& post.glyph_advance_cache@ == pre.glyph_advance_cache@.insert(glyph, r)
    &&& post.shape_cache == pre.shape_cache
    &&& post.shaper == pre.shaper
    &&& post.azure_font == pre.azure_font
}

/// What one shaping request does: it answers the glyphs of `text` in the
/// font; a text shaped before gets the remembered store, a new one is
/// remembered after all the others.
pub open spec fn shape_step(
    pre: &Font,
    text: Seq<char>,
    is_whitespace: bool,
    post: &Font,
    r: GlyphStoreView,
) -> bool {
    &&& post.same_font(pre)
    &&& r.entries == pre.shaped(text)
    &&& r.char_len == text.len()
    &&& match pre.shape_cache.get(text) {
        Some(v) => r == v && post.shape_cache@ == pre.shape_cache@,
        None => r.is_whitespace == is_whitespace && post.shape_cache@ == pre.shape_cache@.push(
            (text, r),
        ),
    }
    &&& post.shaper is Some
    &&& pre.shaper is Some ==> post.shaper == pre.shaper
    &&& post.glyph_advance_cache@ == pre.glyph_advance_cache@
    &&& post.azure_font == pre.azure_font
}

/// A text shaped into glyphs by one font, with its decoration.
#[derive(Debug)]
pub struct TextRun {
    pub text: String,
    pub decoration: TextDecoration,
    pub glyphs: Arc<GlyphStore>,
}

impl TextRun {
    /// Shapes `text` with `font`, as one slice that is not whitespace.
    pub fn new(font: &mut Font, text: String, decoration: TextDecoration) -> (r: TextRun)
        requires
            old(font).wf(),
        ensures
            final(font).wf(),
            shape_step(old(font), text@, false, final(font), r.glyphs@),
            keeps_caches(old(font), final(font)),
            r.text@ == text@,
            r.decoration == decoration,
    {
        let glyphs = font.shape_text(text.clone(), false);
        TextRun { text, decoration, glyphs }
    }
}

/// The fonts chosen for one requested style, most preferred first.
#[derive(Debug)]
pub struct FontGroup {
    pub families: Vec<String>,
    /// Style of the first font, which run metrics are computed with.
    pub style: UsedFontStyle,
    pub fonts: Vec<Font>,
}

impl FontGroup {
    pub open spec fn wf(&self) -> bool {
        forall|i: int| 0 <= i < self.fonts@.len() ==> (#[trigger] self.fonts@[i]).wf()
    }

    pub fn new(families: Vec<String>, style: &UsedFontStyle, fonts: Vec<Font>) -> (r: FontGroup)
        ensures
            r.families == families,
            r.style@ == style@,
            r.fonts == fonts,
    {
        FontGroup { families, style: style.copy(), fonts }
    }

    /// Shapes `text` into a run. Every text is shaped by the first font of
    /// the group, whether or not it has glyphs for all the characters; the
    /// other fonts are left as they are.
    pub fn create_textrun(&mut self, text: String, decoration: TextDecoration) -> (r: TextRun)
        requires
            old(self).wf(),
            old(self).fonts@.len() > 0,
        ensures
            final(self).wf(),
            final(self).families == old(self).families,
            final(self).style == old(self).style,
            final(self).fonts@.len() == old(self).fonts@.len(),
            shape_step(&old(self).fonts@[0], text@, false, &final(self).fonts@[0], r.glyphs@),
            keeps_caches(&old(self).fonts@[0], &final(self).fonts@[0]),
            forall|i: int|
                1 <= i < old(self).fonts@.len() ==> #[trigger] final(self).fonts@[i] == old(
                    self,
                ).fonts@[i],
            r.text@ == text@,
            r.decoration == decoration,
    {
        TextRun::new(&mut self.fonts[0], text, decoration)
    }
}


/// Shaping one text again on a font, after any calls that kept its caches:
/// the later request answers the very store the first one did, and leaves
/// the cache and the shaper as they were.
pub proof fn lemma_shape_again(
    s0: &Font,
    s1: &Font,
    s2: &Font,
    s3: &Font,
    text: Seq<char>,
    w1: bool,
    w2: bool,
    r1: GlyphStoreView,
    r2: GlyphStoreView,
)
    requires
        shape_step(s0, text, w1, s1, r1),
        keeps_caches(s1, s2),
        shape_step(s2, text, w2, s3, r2),
    ensures
        r2 == r1,
        s3.shape_cache@ == s2.shape_cache@,
        s3.shaper == s2.shaper,
{
    if s0.shape_cache.get(text) is None {
        lemma_first_value_push(s0.shape_cache@, text, r1, text);
    }
    assert(s1.shape_cache.get(text) == Some(r1));
    assert(s2.shape_cache.get(text) == Some(r1));
}

/// Asking a font again for a glyph's advance, after any calls that kept its
/// face and fallback: both answers agree, and are the face's advance, or the
/// fallback advance where the face reports none.
pub proof fn lemma_advance_again(
    s0: &Font,
    s1: &Font,
    s2: &Font,
    s3: &Font,
    glyph: GlyphId,
    r1: Au,
    r2: Au,
)
    requires
        advance_step(s0, glyph, s1, r1),
        keeps_caches(s1, s2),
        advance_step(s2, glyph, s3, r2),
    ensures
        r1 == r2,
        r1 == match s0.handle.advance_for(glyph) {
            Some(a) => a,
            None => s0.fallback_advance,
        },
{
}

/// Sum of the advance widths of a list of measurements.
pub open spec fn total_advance_width(ms: Seq<RunMetrics>) -> int
    decreases ms.len(),
{
    if ms.len() == 0 {
        0
    } else {
        total_advance_width(ms.drop_last()) + ms.last().advance_width.0
    }
}

/// Measuring the pieces `cuts[i] .. cuts[i + 1]` of a partition of a range
/// and adding their advance widths gives the advance width of measuring the
/// whole range.
pub proof fn lemma_measure_partition(
    entries: Seq<GlyphEntry>,
    cuts: Seq<int>,
    pieces: Seq<RunMetrics>,
    whole: RunMetrics,
    ascent: Au,
    descent: Au,
)
    requires
        cuts.len() >= 1,
        pieces.len() == cuts.len() - 1,
        forall|i: int| 0 <= i < cuts.len() - 1 ==> cuts[i] <= #[trigger] cuts[i + 1],
        forall|i: int|
            0 <= i < pieces.len() ==> #[trigger] pieces[i] == run_metrics(
                range_advance(entries, cuts[i], cuts[i + 1]),
                ascent,
                descent,
            ) && i32::MIN <= range_advance(entries, cuts[i], cuts[i + 1]) <= i32::MAX,
        whole == run_metrics(range_advance(entries, cuts[0], cuts.last()), ascent, descent),
        i32::MIN <= range_advance(entries, cuts[0], cuts.last()) <= i32::MAX,
    ensures
        total_advance_width(pieces) == whole.advance_width.0,
{
    lemma_pieces_match(entries, cuts, pieces, ascent, descent);
    lemma_partition_advance(entries, cuts);
}

proof fn lemma_pieces_match(
    entries: Seq<GlyphEntry>,
    cuts: Seq<int>,
    pieces: Seq<RunMetrics>,
    ascent: Au,
    descent: Au,
)
    requires
        cuts.len() >= 1,
        pieces.len() == cuts.len() - 1,
        forall|i: int|
            0 <= i < pieces.len() ==> #[trigger] pieces[i] == run_metrics(
                range_advance(entries, cuts[i], cuts[i + 1]),
                ascent,
                descent,
            ) && i32::MIN <= range_advance(entries, cuts[i], cuts[i + 1]) <= i32::MAX,
    ensures
        total_advance_width(pieces) == pieces_advance(entries, cuts),
    decreases cuts.len(),
{
    if cuts.len() > 1 {
        let c = cuts.drop_last();
        let p = pieces.drop_last();
        assert forall|i: int| 0 <= i < p.len() implies #[trigger] p[i] == run_metrics(
            range_advance(entries, c[i], c[i + 1]),
            ascent,
            descent,
        ) && i32::MIN <= range_advance(entries, c[i], c[i + 1]) <= i32::MAX by {
            assert(p[i] == pieces[i]);
            assert(c[i] == cuts[i] && c[i + 1] == cuts[i + 1]);
        }
        lemma_pieces_match(entries, c, p, ascent, descent);
        let k = pieces.len() - 1;
        assert(pieces[k] == run_metrics(range_advance(entries, cuts[k], cuts[k + 1]), ascent, descent));
    }
}

/// Resolving a font's descriptor in another context, from the same face
/// loaded again under the descriptor's selector, gives a font of its own with
/// nothing cached and the same metrics, family, weight, slant and descriptor.
pub proof fn lemma_descriptor_round_trip(
    f: &Font,
    h: FontHandle,
    g: &Font,
    backend: BackendType,
)
    requires
        f.wf(),
        same_face(&h, &f.handle),
        h.face_id() == f.descriptor().selector,
        g.fresh_from(h, f.descriptor().style, backend),
    ensures
        g.metrics == f.metrics,
        g.style@ == f.style@,
        g.handle.family() == f.handle.family(),
        g.handle.weight() == f.handle.weight(),
        g.handle.italic() == f.handle.italic(),
        g.descriptor() == f.descriptor(),
        g.shape_cache@.len() == 0,
        g.glyph_advance_cache@ == Map::<u32, Au>::empty(),
{
}

/// Adding a pair at the end changes only the answer for its key, and only
/// where that key had none.
pub proof fn lemma_first_value_push<K, V>(s: Seq<(K, V)>, k: K, v: V, j: K)
    ensures
        first_value(s.push((k, v)), j) == match first_value(s, j) {
            Some(w) => Some(w),
            None => if j == k {
                Some(v)
            } else {
                None
            },
        },
    decreases s.len(),
{
    if s.len() > 0 {
        assert(s.push((k, v)).drop_first() =~= s.drop_first().push((k, v)));
        assert(s.push((k, v))[0] == s[0]);
        lemma_first_value_push(s.drop_first(), k, v, j);
    } else {
        assert(s.push((k, v)).drop_first() =~= Seq::<(K, V)>::empty());
        assert(s.push((k, v))[0] == (k, v));
        assert(first_value(Seq::<(K, V)>::empty(), j) is None);
    }
}

} // verus!
