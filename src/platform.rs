//! The face a platform font system loaded, as the values it reports:
//! identity, descriptive names, character map, advances, metrics and raw
//! tables. Every font backend hands the rest of the library this one shape.

use vstd::prelude::*;
use crate::geometry::Au;
use crate::glyph::GlyphId;
use crate::style::{FontMetrics, FontWeight};

verus! {

/// A font table's four-byte tag, first character in the high byte.
pub type FontTableTag = u32;

/// The first value paired with `k` in `s`, if any.
pub open spec fn first_value<K, V>(s: Seq<(K, V)>, k: K) -> Option<V>
    decreases s.len(),
{
    if s.len() == 0 {
        None
    } else if s[0].0 == k {
        Some(s[0].1)
    } else {
        first_value(s.drop_first(), k)
    }
}

/// The character whose code is the low byte of `b`.
pub open spec fn low_byte_char(b: u32) -> char {
    (b & 0xff) as u8 as char
}

pub trait FontTableTagConversions {
    spec fn tag_chars(&self) -> Seq<char>;

    /// The tag as its four characters.
    fn tag_to_str(&self) -> (r: String)
        ensures
            r@ == self.tag_chars(),
    ;
}

/// Relies on String::push: the character is appended to the string.
#[verifier::external_body]
fn push_char(s: &mut String, c: char)
    ensures
        final(s)@ == old(s)@.push(c),
{
    s.push(c)
}

fn byte_char(b: u32) -> (r: char)
    ensures
        r == low_byte_char(b),
{
    let low: u32 = b & 0xff;
    assert(low <= 0xff) by (bit_vector)
        requires
            low == b & 0xff,
    ;
    low as u8 as char
}

impl FontTableTagConversions for FontTableTag {
    open spec fn tag_chars(&self) -> Seq<char> {
        seq![
            low_byte_char(*self >> 24),
            low_byte_char(*self >> 16),
            low_byte_char(*self >> 8),
            low_byte_char(*self),
        ]
    }

    fn tag_to_str(&self) -> (r: String) {
        let t = *self;
        let mut s = String::new();
        push_char(&mut s, byte_char(t >> 24));
        push_char(&mut s, byte_char(t >> 16));
        push_char(&mut s, byte_char(t >> 8));
        push_char(&mut s, byte_char(t));
        assert(s@ =~= self.tag_chars());
        s
    }
}

/// The raw bytes of one font table.
#[derive(Debug)]
pub struct FontTable {
    pub data: Vec<u8>,
}

pub trait FontTableMethods {
    spec fn bytes(&self) -> Seq<u8>;

    /// The table's bytes.
    fn buffer(&self) -> (r: &[u8])
        ensures
            r@ == self.bytes(),
    ;
}

impl FontTableMethods for FontTable {
    open spec fn bytes(&self) -> Seq<u8> {
        self.data@
    }

    fn buffer(&self) -> (r: &[u8]) {
        self.data.as_slice()
    }
}

impl FontTable {
    pub fn copy(&self) -> (r: FontTable)
        ensures
            r.data@ == self.data@,
    {
        let mut out: Vec<u8> = Vec::new();
        let mut i: usize = 0;
        while i < self.data.len()
            invariant
                i <= self.data@.len(),
                out@ == self.data@.take(i as int),
            decreases self.data@.len() - i,
        {
            out.push(self.data[i]);
            i = i + 1;
            assert(out@ =~= self.data@.take(i as int));
        }
        assert(self.data@.take(self.data@.len() as int) =~= self.data@);
        FontTable { data: out }
    }
}

/// What every platform face offers the library.
pub trait FontHandleMethods {
    spec fn face_id(&self) -> Seq<char>;

    spec fn family(&self) -> Seq<char>;

    spec fn face(&self) -> Seq<char>;

    spec fn italic(&self) -> bool;

    spec fn weight(&self) -> FontWeight;

    spec fn glyph_for(&self, c: char) -> Option<GlyphId>;

    spec fn advance_for(&self, g: GlyphId) -> Option<Au>;

    spec fn face_metrics(&self) -> FontMetrics;

    spec fn table_for(&self, tag: FontTableTag) -> Option<Seq<u8>>;

    /// An identifier from which the platform can load this face again.
    fn face_identifier(&self) -> (r: String)
        ensures
            r@ == self.face_id(),
    ;

    fn family_name(&self) -> (r: String)
        ensures
            r@ == self.family(),
    ;

    fn face_name(&self) -> (r: String)
        ensures
            r@ == self.face(),
    ;

    fn is_italic(&self) -> (r: bool)
        ensures
            r == self.italic(),
    ;

    fn boldness(&self) -> (r: FontWeight)
        ensures
            r == self.weight(),
    ;

    /// The face's glyph for a character; `None` where it has none.
    fn glyph_index(&self, codepoint: char) -> (r: Option<GlyphId>)
        ensures
            r == self.glyph_for(codepoint),
    ;

    /// A glyph's horizontal advance; `None` where the face cannot say.
    fn glyph_h_advance(&self, glyph: GlyphId) -> (r: Option<Au>)
        ensures
            r == self.advance_for(glyph),
    ;

    fn get_metrics(&self) -> (r: FontMetrics)
        ensures
            r == self.face_metrics(),
    ;

    /// A raw table of the face; `None` where the face has no such table.
    fn get_table_for_tag(&self, tag: FontTableTag) -> (r: Option<FontTable>)
        ensures
            match r {
                Some(t) => self.table_for(tag) == Some(t.data@),
                None => self.table_for(tag) is None,
            },
    ;
}

/// A loaded face. The character map, advance and table lists are searched
/// front to back; the first entry for a key is the face's answer.
#[derive(Debug)]
pub struct FontHandle {
    pub face_identifier: String,
    pub family_name: String,
    pub face_name: String,
    pub italic: bool,
    pub boldness: FontWeight,
    pub metrics: FontMetrics,
    pub cmap: Vec<(char, GlyphId)>,
    pub advances: Vec<(GlyphId, Au)>,
    pub tables: Vec<(FontTableTag, FontTable)>,
}

pub open spec fn table_bytes(s: Seq<(FontTableTag, FontTable)>) -> Seq<(FontTableTag, Seq<u8>)> {
    s.map_values(|e: (FontTableTag, FontTable)| (e.0, e.1.data@))
}

/// The same face: equal identity, names, character map, advances, metrics
/// and tables.
pub open spec fn same_face(a: &FontHandle, b: &FontHandle) -> bool {
    &&& a.face_identifier@ == b.face_identifier@
    &&& a.family_name@ == b.family_name@
    &&& a.face_name@ == b.face_name@
    &&& a.italic == b.italic
    &&& a.boldness == b.boldness
    &&& a.metrics == b.metrics
    &&& a.cmap@ == b.cmap@
    &&& a.advances@ == b.advances@
    &&& table_bytes(a.tables@) == table_bytes(b.tables@)
}

impl FontHandleMethods for FontHandle {
    open spec fn face_id(&self) -> Seq<char> {
        self.face_identifier@
    }

    open spec fn family(&self) -> Seq<char> {
        self.family_name@
    }

    open spec fn face(&self) -> Seq<char> {
        self.face_name@
    }

    open spec fn italic(&self) -> bool {
        self.italic
    }

    open spec fn weight(&self) -> FontWeight {
        self.boldness
    }

    open spec fn glyph_for(&self, c: char) -> Option<GlyphId> {
        first_value(self.cmap@, c)
    }

    open spec fn advance_for(&self, g: GlyphId) -> Option<Au> {
        first_value(self.advances@, g)
    }

    open spec fn face_metrics(&self) -> FontMetrics {
        self.metrics
    }

    open spec fn table_for(&self, tag: FontTableTag) -> Option<Seq<u8>> {
        first_value(table_bytes(self.tables@), tag)
    }

    fn face_identifier(&self) -> (r: String) {
        self.face_identifier.clone()
    }

    fn family_name(&self) -> (r: String) {
        self.family_name.clone()
    }

    fn face_name(&self) -> (r: String) {
        self.face_name.clone()
    }

    fn is_italic(&self) -> (r: bool) {
        self.italic
    }

    fn boldness(&self) -> (r: FontWeight) {
        self.boldness
    }

    fn glyph_index(&self, codepoint: char) -> (r: Option<GlyphId>) {
        let ghost s = self.cmap@;
        let mut i: usize = 0;
        assert(s.skip(0) =~= s);
        while i < self.cmap.len()
            invariant
                i <= s.len(),
                s == self.cmap@,
                first_value(s, codepoint) == first_value(s.skip(i as int), codepoint),
            decreases s.len() - i,
        {
            assert(s.skip(i as int).drop_first() =~= s.skip(i + 1));
            if self.cmap[i].0 == codepoint {
                return Some(self.cmap[i].1);
            }
            i = i + 1;
        }
        None
    }

    fn glyph_h_advance(&self, glyph: GlyphId) -> (r: Option<Au>) {
        let ghost s = self.advances@;
        let mut i: usize = 0;
        assert(s.skip(0) =~= s);
        while i < self.advances.len()
            invariant
                i <= s.len(),
                s == self.advances@,
                first_value(s, glyph) == first_value(s.skip(i as int), glyph),
            decreases s.len() - i,
        {
            assert(s.skip(i as int).drop_first() =~= s.skip(i + 1));
            if self.advances[i].0 == glyph {
                return Some(self.advances[i].1);
            }
            i = i + 1;
        }
        None
    }

    fn get_metrics(&self) -> (r: FontMetrics) {
        self.metrics
    }

    fn get_table_for_tag(&self, tag: FontTableTag) -> (r: Option<FontTable>) {
        let ghost s = table_bytes(self.tables@);
        let mut i: usize = 0;
        assert(s.skip(0) =~= s);
        while i < self.tables.len()
            invariant
                i <= s.len(),
                s == table_bytes(self.tables@),
                first_value(s, tag) == first_value(s.skip(i as int), tag),
            decreases s.len() - i,
        {
            assert(s.skip(i as int).drop_first() =~= s.skip(i + 1));
            if self.tables[i].0 == tag {
                return Some(self.tables[i].1.copy());
            }
            i = i + 1;
        }
        None
    }
}

} // verus!
