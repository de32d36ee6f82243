//! The text-layout side of the style conversion: the values a text layout
//! engine takes for one styled span.
//!
//! Quantities that the layout engine holds as single-precision floats and that
//! this library only passes along are held as [`Number`]s, by bit pattern.
//! Weights, widths and oblique angles are held in the fixed-point units in
//! which computed CSS values carry them (see [`crate::stylo`]).
use vstd::prelude::*;

verus! {

/// A single-precision floating-point value, held by its IEEE-754 bit pattern.
/// The library copies such values and does no arithmetic on them.
#[derive(Clone, Copy, Debug, PartialEq, Eq, Structural)]
pub struct Number {
    pub bits: u32,
}

/// The generic font families a family list may name.
#[derive(Clone, Copy, Debug, PartialEq, Eq, Structural)]
pub enum GenericFamily {
    Serif,
    SansSerif,
    Monospace,
    Cursive,
    Fantasy,
    SystemUi,
    UiSerif,
    UiSansSerif,
    UiMonospace,
    UiRounded,
    Emoji,
    Math,
    FangSong,
}

/// A family as asked of the font collection: a name, or a generic family.
#[derive(Clone, Copy, Debug)]
pub enum QueryFamily<'a> {
    Named(&'a str),
    Generic(GenericFamily),
}

/// One entry of a font stack.
#[derive(Debug)]
pub enum FontFamilyName {
    Named(String),
    Generic(GenericFamily),
}

/// A font stack entry as a mathematical value.
pub enum FamilyView {
    Named(Seq<char>),
    Generic(GenericFamily),
}

impl View for FontFamilyName {
    type V = FamilyView;

    open spec fn view(&self) -> FamilyView {
        match self {
            FontFamilyName::Named(n) => FamilyView::Named(n@),
            FontFamilyName::Generic(g) => FamilyView::Generic(*g),
        }
    }
}

/// The views of the entries of a font stack, in order.
pub open spec fn family_views(s: Seq<FontFamilyName>) -> Seq<FamilyView> {
    s.map_values(|f: FontFamilyName| f@)
}

/// Upright, italic, or oblique by an angle in 1/256 of a degree.
#[derive(Clone, Copy, Debug, PartialEq, Eq, Structural)]
pub enum FontStyle {
    Normal,
    Italic,
    Oblique(Option<i16>),
}

impl FontStyle {
    /// Whether the style is slanted (italic or oblique).
    pub open spec fn spec_is_slanted(self) -> bool {
        !(self is Normal)
    }

    /// Whether the style is slanted (italic or oblique).
    pub fn is_slanted(self) -> (res: bool)
        ensures
            res == self.spec_is_slanted(),
    {
        match self {
            FontStyle::Normal => false,
            _ => true,
        }
    }
}

/// A font weight in 1/64 of a weight unit (400 is `64 * 400`).
#[derive(Clone, Copy, Debug, PartialEq, Eq, Structural)]
pub struct FontWeight {
    pub scaled: u16,
}

impl FontWeight {
    /// The weight, in 1/64 of a weight unit.
    pub fn value(self) -> (res: u16)
        ensures
            res == self.scaled,
    {
        self.scaled
    }
}

/// A font width as a percentage of the normal width, in 1/64 of a percent.
#[derive(Clone, Copy, Debug, PartialEq, Eq, Structural)]
pub struct FontWidth {
    pub scaled_percentage: u16,
}

/// An OpenType tag: four bytes.
#[derive(Clone, Copy, Debug, PartialEq, Eq, Structural)]
pub struct Tag {
    pub b0: u8,
    pub b1: u8,
    pub b2: u8,
    pub b3: u8,
}

impl Tag {
    /// The tag made of these four bytes, in order.
    pub fn from_bytes(b0: u8, b1: u8, b2: u8, b3: u8) -> (res: Tag)
        ensures
            res == (Tag { b0, b1, b2, b3 }),
    {
        Tag { b0, b1, b2, b3 }
    }
}

/// A setting of one variation axis.
#[derive(Clone, Copy, Debug, PartialEq, Eq, Structural)]
pub struct FontVariation {
    pub tag: Tag,
    pub value: Number,
}

/// How white space is collapsed during layout.
#[derive(Clone, Copy, Debug, PartialEq, Eq, Structural)]
pub enum WhiteSpaceCollapse {
    Collapse,
    Preserve,
}

#[derive(Clone, Copy, Debug, PartialEq, Eq, Structural)]
pub enum WordBreak {
    Normal,
    BreakAll,
    KeepAll,
}

#[derive(Clone, Copy, Debug, PartialEq, Eq, Structural)]
pub enum OverflowWrap {
    Normal,
    BreakWord,
    Anywhere,
}

#[derive(Clone, Copy, Debug, PartialEq, Eq, Structural)]
pub enum TextWrapMode {
    Wrap,
    NoWrap,
}

/// Line height: relative to the font metrics, relative to the font size, or
/// an absolute length in pixels.
#[derive(Clone, Copy, Debug, PartialEq, Eq, Structural)]
pub enum LineHeight {
    MetricsRelative(Number),
    FontSizeRelative(Number),
    Absolute(Number),
}

/// The brush of a text span: the id of the node whose paint styles apply.
#[derive(Clone, Copy, Debug, PartialEq, Eq, Structural)]
pub struct TextBrush {
    pub id: usize,
}

impl TextBrush {
    /// The brush that reads its paint from node `id`.
    pub fn from_id(id: usize) -> (res: TextBrush)
        ensures
            res.id == id,
    {
        TextBrush { id }
    }
}

/// The layout style of one text span.
///
/// Font features are always the empty list, the locale is unset, and the
/// decorations (underline, strikethrough) are left at their defaults: they
/// are read from the node named by `brush` when painting.
#[derive(Debug)]
pub struct TextStyle {
    pub font_family: Vec<FontFamilyName>,
    pub font_size: Number,
    pub font_width: FontWidth,
    pub font_style: FontStyle,
    pub font_weight: FontWeight,
    pub font_variations: Vec<FontVariation>,
    pub line_height: LineHeight,
    pub word_spacing: Number,
    pub letter_spacing: Number,
    pub text_wrap_mode: TextWrapMode,
    pub overflow_wrap: OverflowWrap,
    pub word_break: WordBreak,
    pub brush: TextBrush,
    pub has_underline: bool,
    pub has_strikethrough: bool,
}

} // verus!
