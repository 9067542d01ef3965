//! What font is wanted and which face was chosen: styles, selectors and
//! descriptors, the plain values that identify a font across task boundaries,
//! and the metrics a face reports.

use vstd::prelude::*;
use crate::geometry::Au;

verus! {

/// The vertical and horizontal measures of a font face, in application units.
#[derive(Clone, Copy, Debug, PartialEq, Eq, Structural)]
pub struct FontMetrics {
    pub underline_size: Au,
    pub underline_offset: Au,
    pub strikeout_size: Au,
    pub strikeout_offset: Au,
    pub leading: Au,
    pub x_height: Au,
    pub em_size: Au,
    pub ascent: Au,
    pub descent: Au,
    pub max_advance: Au,
}

impl FontMetrics {
    /// Ascent and descent are non-negative and a run's full height,
    /// ascent plus descent, is a length.
    pub open spec fn wf(&self) -> bool {
        &&& self.ascent.0 >= 0
        &&& self.descent.0 >= 0
        &&& self.ascent.0 + self.descent.0 <= i32::MAX
    }
}

/// The CSS `font-weight` values.
#[derive(Clone, Copy, Debug, PartialEq, Eq, Structural)]
pub enum FontWeight {
    Weight100,
    Weight200,
    Weight300,
    Weight400,
    Weight500,
    Weight600,
    Weight700,
    Weight800,
    Weight900,
}

/// The CSS `font-style` values.
#[derive(Clone, Copy, Debug, PartialEq, Eq, Structural)]
pub enum FontSlant {
    Normal,
    Italic,
    Oblique,
}

/// A font request, or the style a resolved font is used with.
///
/// `pt_size` is in hundredths of a point.
#[derive(Debug)]
pub struct FontStyle {
    pub pt_size: u32,
    pub weight: FontWeight,
    pub style: FontSlant,
    pub families: Vec<String>,
}

pub type SpecifiedFontStyle = FontStyle;

pub type UsedFontStyle = FontStyle;

pub struct FontStyleView {
    pub pt_size: u32,
    pub weight: FontWeight,
    pub style: FontSlant,
    pub families: Seq<Seq<char>>,
}

impl View for FontStyle {
    type V = FontStyleView;

    open spec fn view(&self) -> FontStyleView {
        FontStyleView {
            pt_size: self.pt_size,
            weight: self.weight,
            style: self.style,
            families: self.families@.map_values(|f: String| f@),
        }
    }
}

/// Copies a list of strings, character for character.
pub fn copy_strings(v: &Vec<String>) -> (r: Vec<String>)
    ensures
        r@.map_values(|f: String| f@) == v@.map_values(|f: String| f@),
{
    let mut out: Vec<String> = Vec::new();
    let mut i: usize = 0;
    while i < v.len()
        invariant
            i <= v@.len(),
            out@.len() == i,
            forall|k: int| 0 <= k < i ==> (#[trigger] out@[k])@ == v@[k]@,
        decreases v@.len() - i,
    {
        out.push(v[i].clone());
        i = i + 1;
    }
    assert(out@.map_values(|f: String| f@) =~= v@.map_values(|f: String| f@));
    out
}

/// Whether two lists of strings hold the same strings in the same order.
pub fn strings_equal(a: &Vec<String>, b: &Vec<String>) -> (r: bool)
    ensures
        r == (a@.map_values(|f: String| f@) == b@.map_values(|f: String| f@)),
{
    if a.len() != b.len() {
        assert(a@.map_values(|f: String| f@).len() != b@.map_values(|f: String| f@).len());
        return false;
    }
    let mut i: usize = 0;
    while i < a.len()
        invariant
            i <= a@.len(),
            a@.len() == b@.len(),
            forall|k: int| 0 <= k < i ==> (#[trigger] a@[k])@ == b@[k]@,
        decreases a@.len() - i,
    {
        if a[i] != b[i] {
            assert(a@.map_values(|f: String| f@)[i as int] != b@.map_values(
                |f: String| f@,
            )[i as int]);
            return false;
        }
        i = i + 1;
    }
    assert(a@.map_values(|f: String| f@) =~= b@.map_values(|f: String| f@));
    true
}

impl FontStyle {
    pub fn new(pt_size: u32, weight: FontWeight, style: FontSlant, families: Vec<String>) -> (r:
        FontStyle)
        ensures
            r.pt_size == pt_size,
            r.weight == weight,
            r.style == style,
            r.families == families,
    {
        FontStyle { pt_size, weight, style, families }
    }

    /// A copy with the same size, weight, slant and families.
    pub fn copy(&self) -> (r: FontStyle)
        ensures
            r@ == self@,
    {
        FontStyle {
            pt_size: self.pt_size,
            weight: self.weight,
            style: self.style,
            families: copy_strings(&self.families),
        }
    }
}

impl Clone for FontStyle {
    fn clone(&self) -> (r: FontStyle) {
        self.copy()
    }
}

impl PartialEq for FontStyle {
    fn eq(&self, o: &FontStyle) -> (r: bool) {
        self.pt_size == o.pt_size && self.weight == o.weight && self.style == o.style
            && strings_equal(&self.families, &o.families)
    }
}

impl vstd::std_specs::cmp::PartialEqSpecImpl for FontStyle {
    open spec fn obeys_eq_spec() -> bool {
        true
    }

    open spec fn eq_spec(&self, o: &FontStyle) -> bool {
        self@ == o@
    }
}

/// A platform-independent way to name a concrete face.
#[derive(Debug)]
pub enum FontSelector {
    /// The identifier the platform gave the face, from which it can load it
    /// again.
    SelectorPlatformIdentifier(String),
}

impl View for FontSelector {
    type V = Seq<char>;

    open spec fn view(&self) -> Seq<char> {
        match self {
            FontSelector::SelectorPlatformIdentifier(s) => s@,
        }
    }
}

impl Clone for FontSelector {
    fn clone(&self) -> (r: FontSelector) {
        match self {
            FontSelector::SelectorPlatformIdentifier(s) => FontSelector::SelectorPlatformIdentifier(
                s.clone(),
            ),
        }
    }
}

impl PartialEq for FontSelector {
    fn eq(&self, o: &FontSelector) -> (r: bool) {
        let FontSelector::SelectorPlatformIdentifier(a) = self;
        let FontSelector::SelectorPlatformIdentifier(b) = o;
        *a == *b
    }
}

impl vstd::std_specs::cmp::PartialEqSpecImpl for FontSelector {
    open spec fn obeys_eq_spec() -> bool {
        true
    }

    open spec fn eq_spec(&self, o: &FontSelector) -> bool {
        self@ == o@
    }
}

/// A resolved font as a plain value: the style it is used with and the face
/// it was resolved to. It holds no native resource and may be copied to
/// another task, which resolves it to a font of its own.
#[derive(Debug)]
pub struct FontDescriptor {
    pub style: UsedFontStyle,
    pub selector: FontSelector,
}

pub struct FontDescriptorView {
    pub style: FontStyleView,
    pub selector: Seq<char>,
}

impl View for FontDescriptor {
    type V = FontDescriptorView;

    open spec fn view(&self) -> FontDescriptorView {
        FontDescriptorView { style: self.style@, selector: self.selector@ }
    }
}

impl FontDescriptor {
    pub fn new(style: UsedFontStyle, selector: FontSelector) -> (r: FontDescriptor)
        ensures
            r.style == style,
            r.selector == selector,
    {
        FontDescriptor { style, selector }
    }
}

impl Clone for FontDescriptor {
    fn clone(&self) -> (r: FontDescriptor) {
        FontDescriptor { style: self.style.copy(), selector: self.selector.clone() }
    }
}

impl PartialEq for FontDescriptor {
    fn eq(&self, o: &FontDescriptor) -> (r: bool) {
        self.style == o.style && self.selector == o.selector
    }
}

impl vstd::std_specs::cmp::PartialEqSpecImpl for FontDescriptor {
    open spec fn obeys_eq_spec() -> bool {
        true
    }

    open spec fn eq_spec(&self, o: &FontDescriptor) -> bool {
        self@ == o@
    }
}

} // verus!
