use blitz_dom::image::{ImageLayerKind, ImageType, Point};
use blitz_dom::parley::{self, FontFamilyName, GenericFamily, Number, QueryFamily};
use blitz_dom::stylo::{self, FamilyName, SingleFontFamily};
use blitz_dom::stylo_to_parley::{
    font_style, font_variations, font_weight, font_width, generic_font_family, line_height,
    query_font_family, style, white_space_collapse, Platform, NORMAL_LINE_HEIGHT_BITS,
};
use blitz_dom::subsets::{FontFaceSubset, FontFaceSubsetMap};
use blitz_dom::svg::current_color_style_sheet;

const LINUX: Platform = Platform { apple_vendor: false, macos: false };
const IOS: Platform = Platform { apple_vendor: true, macos: false };
const MACOS: Platform = Platform { apple_vendor: true, macos: true };

fn named(name: &str) -> SingleFontFamily {
    SingleFontFamily::FamilyName(FamilyName { name: name.to_string() })
}

fn num(x: f32) -> Number {
    Number { bits: x.to_bits() }
}

#[test]
fn image_layer_kinds_name_their_layers() {
    assert_eq!(ImageLayerKind::Background.image_type(3), ImageType::Background(3));
    assert_eq!(ImageLayerKind::Mask.image_type(0), ImageType::Mask(0));
    assert_ne!(ImageLayerKind::Mask.image_type(1), ImageType::Background(1));
    let p = Point { x: 1, y: 2 };
    assert_eq!(p, Point { x: 1, y: 2 });
}

#[test]
fn generic_families_convert() {
    assert_eq!(generic_font_family(stylo::GenericFontFamily::Unset), GenericFamily::SansSerif);
    assert_eq!(generic_font_family(stylo::GenericFontFamily::Serif), GenericFamily::Serif);
    assert_eq!(generic_font_family(stylo::GenericFontFamily::SansSerif), GenericFamily::SansSerif);
    assert_eq!(generic_font_family(stylo::GenericFontFamily::Monospace), GenericFamily::Monospace);
    assert_eq!(generic_font_family(stylo::GenericFontFamily::Cursive), GenericFamily::Cursive);
    assert_eq!(generic_font_family(stylo::GenericFontFamily::Fantasy), GenericFamily::Fantasy);
    assert_eq!(generic_font_family(stylo::GenericFontFamily::SystemUi), GenericFamily::SystemUi);
}

#[test]
fn query_families_honour_platform_aliases() {
    let apple = named("-apple-system");
    let blink = named("BlinkMacSystemFont");
    let inter = named("Inter");
    assert!(matches!(query_font_family(&inter, MACOS), QueryFamily::Named("Inter")));
    assert!(matches!(query_font_family(&apple, LINUX), QueryFamily::Named("-apple-system")));
    assert!(matches!(
        query_font_family(&apple, IOS),
        QueryFamily::Generic(GenericFamily::SystemUi)
    ));
    assert!(matches!(query_font_family(&blink, IOS), QueryFamily::Named("BlinkMacSystemFont")));
    assert!(matches!(
        query_font_family(&blink, MACOS),
        QueryFamily::Generic(GenericFamily::SystemUi)
    ));
    let generic = SingleFontFamily::Generic(stylo::GenericFontFamily::Monospace);
    assert!(matches!(
        query_font_family(&generic, LINUX),
        QueryFamily::Generic(GenericFamily::Monospace)
    ));
}

#[test]
fn font_styles_convert() {
    assert_eq!(font_style(stylo::FontStyle::normal()), parley::FontStyle::Normal);
    assert_eq!(font_style(stylo::FontStyle::italic()), parley::FontStyle::Italic);
    assert_eq!(
        font_style(stylo::FontStyle::oblique(14 * 256)),
        parley::FontStyle::Oblique(Some(14 * 256))
    );
    assert_eq!(
        font_style(stylo::FontStyle::oblique(-20 * 256)),
        parley::FontStyle::Oblique(Some(-20 * 256))
    );
}

#[test]
fn weights_and_widths_keep_their_value() {
    assert_eq!(font_weight(stylo::FontWeight { fixed: 700 * 64 }).value(), 700 * 64);
    assert_eq!(font_width(stylo::FontStretch { fixed: 125 * 64 }).scaled_percentage, 125 * 64);
}

#[test]
fn variation_tags_become_big_endian_bytes() {
    let settings = stylo::FontVariationSettings(vec![
        stylo::VariationValue { tag: u32::from_be_bytes(*b"wght"), value: num(650.0) },
        stylo::VariationValue { tag: u32::from_be_bytes(*b"slnt"), value: num(-7.5) },
    ]);
    let out = font_variations(&settings);
    assert_eq!(out.len(), 2);
    assert_eq!(out[0].tag, parley::Tag::from_bytes(b'w', b'g', b'h', b't'));
    assert_eq!(f32::from_bits(out[0].value.bits), 650.0);
    assert_eq!(out[1].tag, parley::Tag::from_bytes(b's', b'l', b'n', b't'));
    assert_eq!(f32::from_bits(out[1].value.bits), -7.5);
}

#[test]
fn white_space_modes_collapse_or_preserve() {
    assert_eq!(
        white_space_collapse(stylo::WhiteSpaceCollapse::Collapse),
        parley::WhiteSpaceCollapse::Collapse
    );
    for mode in [
        stylo::WhiteSpaceCollapse::Preserve,
        stylo::WhiteSpaceCollapse::PreserveBreaks,
        stylo::WhiteSpaceCollapse::BreakSpaces,
    ] {
        assert_eq!(white_space_collapse(mode), parley::WhiteSpaceCollapse::Preserve);
    }
}

#[test]
fn line_heights_convert() {
    assert_eq!(f32::from_bits(NORMAL_LINE_HEIGHT_BITS), 1.2);
    assert_eq!(
        line_height(stylo::LineHeight::Normal),
        parley::LineHeight::FontSizeRelative(num(1.2))
    );
    assert_eq!(
        line_height(stylo::LineHeight::Number(num(1.5))),
        parley::LineHeight::FontSizeRelative(num(1.5))
    );
    assert_eq!(
        line_height(stylo::LineHeight::Length(num(20.0))),
        parley::LineHeight::Absolute(num(20.0))
    );
}

fn computed(families: Vec<SingleFontFamily>, style: stylo::FontStyle) -> stylo::ComputedValues {
    stylo::ComputedValues {
        font: stylo::Font {
            font_size: num(16.0),
            line_height: stylo::LineHeight::Normal,
            font_weight: stylo::FontWeight { fixed: 400 * 64 },
            font_style: style,
            font_stretch: stylo::FontStretch { fixed: 100 * 64 },
            font_variation_settings: stylo::FontVariationSettings(vec![stylo::VariationValue {
                tag: u32::from_be_bytes(*b"opsz"),
                value: num(12.0),
            }]),
            font_family: families,
        },
        inherited_text: stylo::InheritedText {
            letter_spacing: num(0.5),
            word_spacing: num(2.0),
            word_break: stylo::WordBreak::BreakAll,
            overflow_wrap: stylo::OverflowWrap::Anywhere,
            text_wrap_mode: stylo::TextWrapMode::Nowrap,
        },
    }
}

fn names(families: &[FontFamilyName]) -> Vec<String> {
    families
        .iter()
        .map(|f| match f {
            FontFamilyName::Named(n) => n.clone(),
            FontFamilyName::Generic(g) => format!("<{:?}>", g),
        })
        .collect()
}

#[test]
fn text_style_converts_every_property() {
    let mut subsets = FontFaceSubsetMap::new();
    subsets.insert(
        "inter".to_string(),
        vec![
            FontFaceSubset {
                family: "inter-latin".to_string(),
                weight: 400 * 64,
                style: parley::FontStyle::Normal,
            },
            FontFaceSubset {
                family: "inter-latin-italic".to_string(),
                weight: 400 * 64,
                style: parley::FontStyle::Italic,
            },
        ],
    );
    let values = computed(
        vec![
            named("-apple-system"),
            named("Inter"),
            SingleFontFamily::Generic(stylo::GenericFontFamily::Unset),
        ],
        stylo::FontStyle::italic(),
    );
    let out = style(42, &values, &subsets, IOS);
    assert_eq!(
        names(&out.font_family),
        ["<SystemUi>", "inter-latin-italic", "Inter", "<SansSerif>"]
    );
    assert_eq!(f32::from_bits(out.font_size.bits), 16.0);
    assert_eq!(out.line_height, parley::LineHeight::FontSizeRelative(num(1.2)));
    assert_eq!(f32::from_bits(out.letter_spacing.bits), 0.5);
    assert_eq!(f32::from_bits(out.word_spacing.bits), 2.0);
    assert_eq!(out.font_weight.value(), 400 * 64);
    assert_eq!(out.font_style, parley::FontStyle::Italic);
    assert_eq!(out.font_width.scaled_percentage, 100 * 64);
    assert_eq!(out.font_variations.len(), 1);
    assert_eq!(out.font_variations[0].tag, parley::Tag::from_bytes(b'o', b'p', b's', b'z'));
    assert_eq!(out.word_break, parley::WordBreak::BreakAll);
    assert_eq!(out.overflow_wrap, parley::OverflowWrap::Anywhere);
    assert_eq!(out.text_wrap_mode, parley::TextWrapMode::NoWrap);
    assert_eq!(out.brush.id, 42);
    assert!(!out.has_underline && !out.has_strikethrough);

    // On another platform the alias is an ordinary name; upright text picks
    // the upright subset.
    let values = computed(vec![named("-apple-system"), named("INTER")], stylo::FontStyle::normal());
    let out = style(1, &values, &subsets, LINUX);
    assert_eq!(names(&out.font_family), ["-apple-system", "inter-latin", "INTER"]);
    assert_eq!(out.font_style, parley::FontStyle::Normal);
}

#[test]
fn current_color_style_sheet_sets_the_root_color() {
    assert_eq!(current_color_style_sheet(255, 0, 0, "1"), "svg{color:rgba(255,0,0,1)}");
    assert_eq!(current_color_style_sheet(0, 128, 7, "0.5"), "svg{color:rgba(0,128,7,0.5)}");
}
