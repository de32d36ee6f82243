//! The computed-style side of the style conversion: the computed CSS values of
//! an element that text layout reads.
//!
//! Weights and stretches are held as the fixed-point numbers computed styles
//! carry (six fraction bits), and font-style angles with eight fraction bits.
//! Lengths and numbers that computed styles hold as floats are held as
//! [`Number`]s, by bit pattern; lengths that depend on the font size
//! (letter and word spacing) are held already resolved to pixels.
use vstd::prelude::*;
use crate::parley::Number;

verus! {

/// The generic font family keywords of CSS.
#[derive(Clone, Copy, Debug, PartialEq, Eq, Structural)]
pub enum GenericFontFamily {
    /// No generic family given.
    Unset,
    Serif,
    SansSerif,
    Monospace,
    Cursive,
    Fantasy,
    SystemUi,
}

/// A family name as written in a `font-family` list.
#[derive(Debug)]
pub struct FamilyName {
    pub name: String,
}

/// One entry of a computed `font-family` list.
#[derive(Debug)]
pub enum SingleFontFamily {
    FamilyName(FamilyName),
    Generic(GenericFontFamily),
}

/// A computed `font-weight`, in 1/64 of a weight unit.
#[derive(Clone, Copy, Debug, PartialEq, Eq, Structural)]
pub struct FontWeight {
    pub fixed: u16,
}

impl FontWeight {
    /// The weight, in 1/64 of a weight unit.
    pub fn value(self) -> (res: u16)
        ensures
            res == self.fixed,
    {
        self.fixed
    }
}

/// A computed `font-stretch`: a percentage, in 1/64 of a percent.
#[derive(Clone, Copy, Debug, PartialEq, Eq, Structural)]
pub struct FontStretch {
    pub fixed: u16,
}

/// A computed `font-style`: an oblique angle in 1/256 of a degree, where the
/// angle 0 stands for `normal` and the otherwise invalid angle of 100 degrees
/// stands for `italic`.
#[derive(Clone, Copy, Debug, PartialEq, Eq, Structural)]
pub struct FontStyle {
    pub fixed: i16,
}

/// The angle that stands for `italic`: 100 degrees, in 1/256 of a degree.
pub const ITALIC_ANGLE: i16 = 25600;

impl FontStyle {
    pub open spec fn spec_normal() -> FontStyle {
        FontStyle { fixed: 0 }
    }

    pub open spec fn spec_italic() -> FontStyle {
        FontStyle { fixed: ITALIC_ANGLE }
    }

    /// `font-style: normal`.
    pub fn normal() -> (res: FontStyle)
        ensures
            res == Self::spec_normal(),
    {
        FontStyle { fixed: 0 }
    }

    /// `font-style: italic`.
    pub fn italic() -> (res: FontStyle)
        ensures
            res == Self::spec_italic(),
    {
        FontStyle { fixed: ITALIC_ANGLE }
    }

    /// `font-style: oblique <angle>`, the angle in 1/256 of a degree.
    pub fn oblique(angle: i16) -> (res: FontStyle)
        ensures
            res.fixed == angle,
    {
        FontStyle { fixed: angle }
    }

    /// The oblique angle, in 1/256 of a degree.
    pub fn oblique_degrees(self) -> (res: i16)
        ensures
            res == self.fixed,
    {
        self.fixed
    }
}

/// A `font-variation-settings` entry: an axis tag (four bytes, the first in
/// the most significant position) and its value.
#[derive(Clone, Copy, Debug, PartialEq, Eq, Structural)]
pub struct VariationValue {
    pub tag: u32,
    pub value: Number,
}

/// A computed `font-variation-settings`.
#[derive(Debug)]
pub struct FontVariationSettings(pub Vec<VariationValue>);

/// A computed `line-height`.
#[derive(Clone, Copy, Debug, PartialEq, Eq, Structural)]
pub enum LineHeight {
    Normal,
    Number(Number),
    /// A length in pixels.
    Length(Number),
}

#[derive(Clone, Copy, Debug, PartialEq, Eq, Structural)]
pub enum WhiteSpaceCollapse {
    Collapse,
    Preserve,
    PreserveBreaks,
    BreakSpaces,
}

#[derive(Clone, Copy, Debug, PartialEq, Eq, Structural)]
pub enum WordBreak {
    Normal,
    BreakAll,
    KeepAll,
}

#[derive(Clone, Copy, Debug, PartialEq, Eq, Structural)]
pub enum OverflowWrap {
    Normal,
    BreakWord,
    Anywhere,
}

#[derive(Clone, Copy, Debug, PartialEq, Eq, Structural)]
pub enum TextWrapMode {
    Wrap,
    Nowrap,
}

/// The computed font properties of an element.
#[derive(Debug)]
pub struct Font {
    /// The used font size, in pixels.
    pub font_size: Number,
    pub line_height: LineHeight,
    pub font_weight: FontWeight,
    pub font_style: FontStyle,
    pub font_stretch: FontStretch,
    pub font_variation_settings: FontVariationSettings,
    pub font_family: Vec<SingleFontFamily>,
}

/// The computed inherited text properties of an element.
#[derive(Debug)]
pub struct InheritedText {
    /// `letter-spacing`, resolved against the font size, in pixels.
    pub letter_spacing: Number,
    /// `word-spacing`, resolved against the font size, in pixels.
    pub word_spacing: Number,
    pub word_break: WordBreak,
    pub overflow_wrap: OverflowWrap,
    pub text_wrap_mode: TextWrapMode,
}

/// The computed values of an element that text layout reads.
#[derive(Debug)]
pub struct ComputedValues {
    pub font: Font,
    pub inherited_text: InheritedText,
}

impl ComputedValues {
    pub fn get_font(&self) -> (res: &Font)
        ensures
            res == &self.font,
    {
        &self.font
    }

    pub fn get_inherited_text(&self) -> (res: &InheritedText)
        ensures
            res == &self.inherited_text,
    {
        &self.inherited_text
    }
}

} // verus!
