//! Conversion functions from computed-style values to text-layout values.
use vstd::prelude::*;
use crate::parley;
use crate::stylo;
use crate::subsets::{
    FontFaceSubset, FontFaceSubsetMap, covering_subsets, law_nearest_subsets_are_offered,
    law_offered_subsets_are_nearest, select_covering_subsets, str_views, subset_families,
};
use crate::text::{lowercase, str_equals, to_lowercase};
use crate::parley::{FamilyView, family_views};

verus! {

broadcast use vstd::seq_lib::group_seq_properties;

/// The platform the library runs on, as far as font-family aliases depend on
/// it: `-apple-system` names the system UI font on Apple platforms, and
/// `BlinkMacSystemFont` does on macOS.
#[derive(Clone, Copy, Debug, PartialEq, Eq, Structural)]
pub struct Platform {
    pub apple_vendor: bool,
    pub macos: bool,
}

pub open spec fn spec_generic_font_family(input: stylo::GenericFontFamily) -> parley::GenericFamily {
    match input {
        stylo::GenericFontFamily::Unset => parley::GenericFamily::SansSerif,
        stylo::GenericFontFamily::Serif => parley::GenericFamily::Serif,
        stylo::GenericFontFamily::SansSerif => parley::GenericFamily::SansSerif,
        stylo::GenericFontFamily::Monospace => parley::GenericFamily::Monospace,
        stylo::GenericFontFamily::Cursive => parley::GenericFamily::Cursive,
        stylo::GenericFontFamily::Fantasy => parley::GenericFamily::Fantasy,
        stylo::GenericFontFamily::SystemUi => parley::GenericFamily::SystemUi,
    }
}

/// The layout engine's generic family for a CSS generic family keyword; no
/// keyword means sans-serif.
pub fn generic_font_family(input: stylo::GenericFontFamily) -> (res: parley::GenericFamily)
    ensures
        res == spec_generic_font_family(input),
{
    match input {
        stylo::GenericFontFamily::Unset => parley::GenericFamily::SansSerif,
        stylo::GenericFontFamily::Serif => parley::GenericFamily::Serif,
        stylo::GenericFontFamily::SansSerif => parley::GenericFamily::SansSerif,
        stylo::GenericFontFamily::Monospace => parley::GenericFamily::Monospace,
        stylo::GenericFontFamily::Cursive => parley::GenericFamily::Cursive,
        stylo::GenericFontFamily::Fantasy => parley::GenericFamily::Fantasy,
        stylo::GenericFontFamily::SystemUi => parley::GenericFamily::SystemUi,
    }
}

/// Whether a family name is, on this platform, a legacy alias of the system UI
/// font.
pub open spec fn is_system_ui_alias(name: Seq<char>, platform: Platform) -> bool {
    ||| platform.apple_vendor && name == "-apple-system"@
    ||| platform.macos && name == "BlinkMacSystemFont"@
}

fn system_ui_alias(name: &str, platform: Platform) -> (res: bool)
    ensures
        res == is_system_ui_alias(name@, platform),
{
    (platform.apple_vendor && str_equals(name, "-apple-system")) || (platform.macos && str_equals(
        name,
        "BlinkMacSystemFont",
    ))
}

/// The font-stack entry a `font-family` entry stands for.
pub open spec fn spec_family_entry(input: stylo::SingleFontFamily, platform: Platform) -> FamilyView {
    match input {
        stylo::SingleFontFamily::FamilyName(name) => if is_system_ui_alias(name.name@, platform) {
            FamilyView::Generic(parley::GenericFamily::SystemUi)
        } else {
            FamilyView::Named(name.name@)
        },
        stylo::SingleFontFamily::Generic(g) => FamilyView::Generic(spec_generic_font_family(g)),
    }
}

/// The family to query for a `font-family` entry: the named family (or the
/// system UI font for a platform alias of it), or the generic family.
pub fn query_font_family(input: &stylo::SingleFontFamily, platform: Platform) -> (res:
    parley::QueryFamily<'_>)
    ensures
        match spec_family_entry(*input, platform) {
            FamilyView::Named(n) => res matches parley::QueryFamily::Named(q) && q@ == n,
            FamilyView::Generic(g) => res == parley::QueryFamily::Generic(g),
        },
{
    match input {
        stylo::SingleFontFamily::FamilyName(name) => {
            let name = name.name.as_str();
            if system_ui_alias(name, platform) {
                parley::QueryFamily::Generic(parley::GenericFamily::SystemUi)
            } else {
                parley::QueryFamily::Named(name)
            }
        },
        stylo::SingleFontFamily::Generic(generic) => {
            parley::QueryFamily::Generic(generic_font_family(*generic))
        },
    }
}

/// The font-stack entry for a `font-family` entry.
pub fn font_family_name(input: &stylo::SingleFontFamily, platform: Platform) -> (res:
    parley::FontFamilyName)
    ensures
        res@ == spec_family_entry(*input, platform),
{
    match input {
        stylo::SingleFontFamily::FamilyName(name) => {
            let name = name.name.as_str();
            if system_ui_alias(name, platform) {
                parley::FontFamilyName::Generic(parley::GenericFamily::SystemUi)
            } else {
                parley::FontFamilyName::Named(name.to_owned())
            }
        },
        stylo::SingleFontFamily::Generic(generic) => {
            parley::FontFamilyName::Generic(generic_font_family(*generic))
        },
    }
}

/// A computed weight as a layout weight (same value).
pub fn font_weight(input: stylo::FontWeight) -> (res: parley::FontWeight)
    ensures
        res.scaled == input.fixed,
{
    parley::FontWeight { scaled: input.value() }
}

/// A computed `font-stretch` percentage as a layout width (same percentage).
pub fn font_width(input: stylo::FontStretch) -> (res: parley::FontWidth)
    ensures
        res.scaled_percentage == input.fixed,
{
    parley::FontWidth { scaled_percentage: input.fixed }
}

pub open spec fn spec_font_style(input: stylo::FontStyle) -> parley::FontStyle {
    if input == stylo::FontStyle::spec_normal() {
        parley::FontStyle::Normal
    } else if input == stylo::FontStyle::spec_italic() {
        parley::FontStyle::Italic
    } else {
        parley::FontStyle::Oblique(Some(input.fixed))
    }
}

/// `normal` and `italic` map to themselves; any other angle is oblique by that
/// angle.
pub fn font_style(input: stylo::FontStyle) -> (res: parley::FontStyle)
    ensures
        res == spec_font_style(input),
{
    if input.fixed == 0 {
        parley::FontStyle::Normal
    } else if input.fixed == stylo::ITALIC_ANGLE {
        parley::FontStyle::Italic
    } else {
        parley::FontStyle::Oblique(Some(input.oblique_degrees()))
    }
}

/// The tag made of the four bytes of `tag`, most significant first.
pub open spec fn spec_tag_of(tag: u32) -> parley::Tag {
    parley::Tag {
        b0: (tag / 0x1000000) as u8,
        b1: ((tag / 0x10000) % 0x100) as u8,
        b2: ((tag / 0x100) % 0x100) as u8,
        b3: (tag % 0x100) as u8,
    }
}

pub open spec fn spec_font_variation(v: stylo::VariationValue) -> parley::FontVariation {
    parley::FontVariation { tag: spec_tag_of(v.tag), value: v.value }
}

/// Each variation setting with its tag as bytes (big-endian) and its value
/// unchanged, in order.
pub fn font_variations(input: &stylo::FontVariationSettings) -> (res: Vec<parley::FontVariation>)
    ensures
        res@ == input.0@.map_values(|v: stylo::VariationValue| spec_font_variation(v)),
{
    let n = input.0.len();
    let mut res: Vec<parley::FontVariation> = Vec::new();
    let mut i: usize = 0;
    while i < n
        invariant
            n == input.0@.len(),
            i <= n,
            res@ == input.0@.take(i as int).map_values(
                |v: stylo::VariationValue| spec_font_variation(v),
            ),
        decreases n - i,
    {
        let v = input.0[i];
        let t = v.tag;
        let tag = parley::Tag::from_bytes(
            (t / 0x1000000) as u8,
            ((t / 0x10000) % 0x100) as u8,
            ((t / 0x100) % 0x100) as u8,
            (t % 0x100) as u8,
        );
        res.push(parley::FontVariation { tag, value: v.value });
        proof {
            assert(input.0@.take(i + 1) =~= input.0@.take(i as int).push(v));
        }
        i = i + 1;
    }
    proof {
        assert(input.0@.take(n as int) =~= input.0@);
    }
    res
}

pub open spec fn spec_white_space_collapse(input: stylo::WhiteSpaceCollapse) -> parley::WhiteSpaceCollapse {
    match input {
        stylo::WhiteSpaceCollapse::Collapse => parley::WhiteSpaceCollapse::Collapse,
        _ => parley::WhiteSpaceCollapse::Preserve,
    }
}

/// `collapse` collapses; every other mode (including `preserve-breaks` and
/// `break-spaces`) preserves white space.
pub fn white_space_collapse(input: stylo::WhiteSpaceCollapse) -> (res: parley::WhiteSpaceCollapse)
    ensures
        res == spec_white_space_collapse(input),
{
    match input {
        stylo::WhiteSpaceCollapse::Collapse => parley::WhiteSpaceCollapse::Collapse,
        stylo::WhiteSpaceCollapse::Preserve => parley::WhiteSpaceCollapse::Preserve,
        stylo::WhiteSpaceCollapse::PreserveBreaks => parley::WhiteSpaceCollapse::Preserve,
        stylo::WhiteSpaceCollapse::BreakSpaces => parley::WhiteSpaceCollapse::Preserve,
    }
}

/// The synthetic families spliced in ahead of a named family whose lower-case
/// name is `key`: the covering subsets registered under that key, if any.
pub open spec fn spliced_families(
    subsets: Map<Seq<char>, Vec<FontFaceSubset>>,
    key: Seq<char>,
    weight: u16,
    style: parley::FontStyle,
) -> Seq<FamilyView> {
    if subsets.contains_key(key) {
        subset_families(covering_subsets(subsets[key]@, weight, style)).map_values(
            |n: Seq<char>| FamilyView::Named(n),
        )
    } else {
        Seq::empty()
    }
}

/// What one font-stack entry expands to: a named family is preceded by the
/// subset families registered under its lower-case name; a generic family
/// stays alone.
pub open spec fn expanded_entry(
    f: FamilyView,
    subsets: Map<Seq<char>, Vec<FontFaceSubset>>,
    weight: u16,
    style: parley::FontStyle,
) -> Seq<FamilyView> {
    match f {
        FamilyView::Named(n) => spliced_families(subsets, lowercase(n), weight, style).push(f),
        FamilyView::Generic(_) => seq![f],
    }
}

/// A font stack with every entry expanded, in order.
pub open spec fn expanded_families(
    families: Seq<FamilyView>,
    subsets: Map<Seq<char>, Vec<FontFaceSubset>>,
    weight: u16,
    style: parley::FontStyle,
) -> Seq<FamilyView>
    decreases families.len(),
{
    if families.len() == 0 {
        Seq::empty()
    } else {
        expanded_families(families.drop_last(), subsets, weight, style) + expanded_entry(
            families.last(),
            subsets,
            weight,
            style,
        )
    }
}

/// Whether no named family of the stack has subsets registered under its
/// lower-case name.
pub open spec fn none_registered(
    families: Seq<FamilyView>,
    subsets: Map<Seq<char>, Vec<FontFaceSubset>>,
) -> bool {
    forall|i: int|
        0 <= i < families.len() ==> (#[trigger] families[i] matches FamilyView::Named(n)
            ==> !subsets.contains_key(lowercase(n)))
}

/// Law: a font stack none of whose named families has subsets registered
/// under its lower-case name (in particular, any stack when nothing is
/// registered) expands to itself.
pub proof fn law_expansion_without_registered_subsets_is_identity(
    families: Seq<FamilyView>,
    subsets: Map<Seq<char>, Vec<FontFaceSubset>>,
    weight: u16,
    style: parley::FontStyle,
)
    requires
        none_registered(families, subsets),
    ensures
        expanded_families(families, subsets, weight, style) == families,
    decreases families.len(),
{
    if families.len() > 0 {
        let rest = families.drop_last();
        assert(none_registered(rest, subsets)) by {
            assert forall|i: int| 0 <= i < rest.len() implies (#[trigger] rest[i] matches FamilyView::Named(n)
                ==> !subsets.contains_key(lowercase(n))) by {
                assert(rest[i] == families[i]);
            }
        }
        law_expansion_without_registered_subsets_is_identity(rest, subsets, weight, style);
        let last = families.last();
        assert(families[families.len() - 1] == last);
        assert(expanded_entry(last, subsets, weight, style) =~= seq![last]);
        assert(families =~= rest.push(last));
    }
}

/// Law: expanding two font stacks one after the other is expanding their
/// concatenation; each entry expands on its own.
pub proof fn law_expansion_distributes_over_concatenation(
    a: Seq<FamilyView>,
    b: Seq<FamilyView>,
    subsets: Map<Seq<char>, Vec<FontFaceSubset>>,
    weight: u16,
    style: parley::FontStyle,
)
    ensures
        expanded_families(a + b, subsets, weight, style) == expanded_families(a, subsets, weight, style)
            + expanded_families(b, subsets, weight, style),
    decreases b.len(),
{
    if b.len() == 0 {
        assert(a + b =~= a);
        assert(expanded_families(a, subsets, weight, style) + expanded_families(b, subsets, weight, style)
            =~= expanded_families(a, subsets, weight, style));
    } else {
        let b0 = b.drop_last();
        law_expansion_distributes_over_concatenation(a, b0, subsets, weight, style);
        assert((a + b).drop_last() =~= a + b0);
        assert((a + b).last() == b.last());
        let ea = expanded_families(a, subsets, weight, style);
        let eb0 = expanded_families(b0, subsets, weight, style);
        let last = expanded_entry(b.last(), subsets, weight, style);
        assert(ea + eb0 + last =~= ea + (eb0 + last));
    }
}

/// Law: every entry of a font stack is kept by the expansion: the expanded
/// stack ends with the last entry, and contains every entry.
pub proof fn law_expansion_keeps_every_family(
    families: Seq<FamilyView>,
    subsets: Map<Seq<char>, Vec<FontFaceSubset>>,
    weight: u16,
    style: parley::FontStyle,
)
    ensures
        forall|i: int|
            0 <= i < families.len() ==> expanded_families(families, subsets, weight, style).contains(
                #[trigger] families[i],
            ),
        families.len() > 0 ==> expanded_families(families, subsets, weight, style).last()
            == families.last(),
        expanded_families(families, subsets, weight, style).len() >= families.len(),
    decreases families.len(),
{
    if families.len() > 0 {
        let rest = families.drop_last();
        law_expansion_keeps_every_family(rest, subsets, weight, style);
        let er = expanded_families(rest, subsets, weight, style);
        let last = families.last();
        let el = expanded_entry(last, subsets, weight, style);
        let e = er + el;
        assert(el.len() > 0 && el.last() == last);
        assert(e.last() == last);
        assert forall|i: int| 0 <= i < families.len() implies e.contains(#[trigger] families[i]) by {
            if i < families.len() - 1 {
                assert(rest[i] == families[i]);
                let k = choose|k: int| 0 <= k < er.len() && er[k] == rest[i];
                assert(e[k] == er[k]);
            } else {
                assert(e[e.len() - 1] == last);
            }
        }
    }
}

/// Law: a generic family expands to itself alone.
pub proof fn law_generic_family_expands_to_itself(
    g: parley::GenericFamily,
    subsets: Map<Seq<char>, Vec<FontFaceSubset>>,
    weight: u16,
    style: parley::FontStyle,
)
    ensures
        expanded_families(seq![FamilyView::Generic(g)], subsets, weight, style) == seq![
            FamilyView::Generic(g),
        ],
{
    let fs = seq![FamilyView::Generic(g)];
    assert(fs.drop_last() =~= Seq::<FamilyView>::empty());
    assert(expanded_families(fs.drop_last(), subsets, weight, style) =~= Seq::<FamilyView>::empty());
    assert(fs.last() == FamilyView::Generic(g));
    assert(expanded_families(fs, subsets, weight, style) =~= seq![FamilyView::Generic(g)]);
}

/// Law: a named family expands to itself, preceded by synthetic families
/// only when subsets are registered under its lower-case name. Each of those
/// is the family of one of the registered subsets, chosen for the run's own
/// weight and style: it is upright exactly when the run is upright (unless no
/// registered subset is), and no considered subset is nearer the run's weight
/// (as an absolute difference). Every considered subset at the nearest weight
/// is among them.
pub proof fn law_named_family_expansion(
    n: Seq<char>,
    subsets: Map<Seq<char>, Vec<FontFaceSubset>>,
    weight: u16,
    style: parley::FontStyle,
)
    ensures
        ({
            let e = expanded_families(seq![FamilyView::Named(n)], subsets, weight, style);
            let key = lowercase(n);
            &&& e.len() >= 1
            &&& e.last() == FamilyView::Named(n)
            &&& !subsets.contains_key(key) ==> e.len() == 1
            &&& subsets.contains_key(key) ==> {
                let g = subsets[key]@;
                &&& forall|j: int|
                    0 <= j < e.len() - 1 ==> exists|k: int|
                        0 <= k < g.len() && #[trigger] e[j] == FamilyView::Named(g[k].family@) && ((
                        exists|m: int|
                            0 <= m < g.len() && ((#[trigger] g[m]).style is Normal) == (
                            style is Normal)) ==> ((g[k].style is Normal) == (style is Normal)))
                            && forall|m: int|
                            0 <= m < g.len() && ((forall|q: int|
                                0 <= q < g.len() ==> ((#[trigger] g[q]).style is Normal) != (
                                style is Normal)) || ((#[trigger] g[m]).style is Normal) == (
                            style is Normal)) ==> vstd::math::abs(g[k].weight - weight)
                                <= vstd::math::abs(g[m].weight - weight)
                &&& forall|k: int|
                    0 <= k < g.len() && ((forall|q: int|
                        0 <= q < g.len() ==> ((#[trigger] g[q]).style is Normal) != (
                        style is Normal)) || ((#[trigger] g[k]).style is Normal) == (style is Normal))
                        && (forall|m: int|
                        0 <= m < g.len() && ((forall|q: int|
                            0 <= q < g.len() ==> ((#[trigger] g[q]).style is Normal) != (
                            style is Normal)) || ((#[trigger] g[m]).style is Normal) == (
                        style is Normal)) ==> vstd::math::abs(g[k].weight - weight)
                            <= vstd::math::abs(g[m].weight - weight)) ==> e.contains(
                        FamilyView::Named(g[k].family@),
                    )
            }
        }),
{
    let f = FamilyView::Named(n);
    let fs = seq![f];
    let key = lowercase(n);
    assert(fs.drop_last() =~= Seq::<FamilyView>::empty());
    assert(expanded_families(fs.drop_last(), subsets, weight, style) =~= Seq::<FamilyView>::empty());
    assert(fs.last() == f);
    let e = expanded_families(fs, subsets, weight, style);
    assert(e =~= spliced_families(subsets, key, weight, style).push(f));
    if subsets.contains_key(key) {
        let g = subsets[key]@;
        let cov = covering_subsets(g, weight, style);
        law_offered_subsets_are_nearest(g, weight, style);
        law_nearest_subsets_are_offered(g, weight, style);
        let sp = spliced_families(subsets, key, weight, style);
        assert(sp.len() == cov.len());
        assert forall|j: int| 0 <= j < e.len() - 1 implies exists|k: int|
            0 <= k < g.len() && #[trigger] e[j] == FamilyView::Named(g[k].family@) && ((exists|m: int|
                0 <= m < g.len() && ((#[trigger] g[m]).style is Normal) == (style is Normal)) ==> ((
            g[k].style is Normal) == (style is Normal))) && forall|m: int|
                0 <= m < g.len() && ((forall|q: int|
                    0 <= q < g.len() ==> ((#[trigger] g[q]).style is Normal) != (style is Normal))
                    || ((#[trigger] g[m]).style is Normal) == (style is Normal)) ==> vstd::math::abs(
                    g[k].weight - weight,
                ) <= vstd::math::abs(g[m].weight - weight) by {
            let o = cov[j];
            assert(e[j] == sp[j]);
            assert(sp[j] == FamilyView::Named(o.family@));
            assert(g.contains(o));
            let k = choose|k: int| 0 <= k < g.len() && g[k] == o;
            assert(e[j] == FamilyView::Named(g[k].family@));
        }
        assert forall|k: int|
            0 <= k < g.len() && ((forall|q: int|
                0 <= q < g.len() ==> ((#[trigger] g[q]).style is Normal) != (style is Normal))
                || ((#[trigger] g[k]).style is Normal) == (style is Normal)) && (forall|m: int|
                0 <= m < g.len() && ((forall|q: int|
                    0 <= q < g.len() ==> ((#[trigger] g[q]).style is Normal) != (style is Normal))
                    || ((#[trigger] g[m]).style is Normal) == (style is Normal)) ==> vstd::math::abs(
                    g[k].weight - weight,
                ) <= vstd::math::abs(g[m].weight - weight)) implies e.contains(
            FamilyView::Named(g[k].family@),
        ) by {
            assert(cov.contains(g[k]));
            let j = choose|j: int| 0 <= j < cov.len() && cov[j] == g[k];
            assert(sp[j] == FamilyView::Named(g[k].family@));
            assert(e[j] == sp[j]);
        }
    } else {
        assert(spliced_families(subsets, key, weight, style) =~= Seq::<FamilyView>::empty());
    }
}

/// The synthetic families to splice in ahead of a named family whose
/// lower-case name is `key`.
pub fn registered_subset_families(
    subsets: &FontFaceSubsetMap,
    key: &str,
    weight: u16,
    style: parley::FontStyle,
) -> (res: Vec<parley::FontFamilyName>)
    ensures
        family_views(res@) == spliced_families(subsets@, key@, weight, style),
{
    let mut res: Vec<parley::FontFamilyName> = Vec::new();
    match subsets.get(key) {
        None => {
            assert(family_views(res@) =~= Seq::<FamilyView>::empty());
        },
        Some(group) => {
            let names = select_covering_subsets(group.as_slice(), weight, style);
            let ghost target = subset_families(covering_subsets(group@, weight, style));
            let n = names.len();
            let mut i: usize = 0;
            while i < n
                invariant
                    n == names@.len(),
                    i <= n,
                    str_views(names@) == target,
                    family_views(res@) == target.take(i as int).map_values(
                        |m: Seq<char>| FamilyView::Named(m),
                    ),
                decreases n - i,
            {
                let name: &str = names[i];
                let ghost before = res@;
                res.push(parley::FontFamilyName::Named(name.to_owned()));
                proof {
                    assert(str_views(names@)[i as int] == name@);
                    assert(target.take(i + 1) =~= target.take(i as int).push(name@));
                    assert(res@ =~= before.push(res@.last()));
                    assert(family_views(res@) =~= family_views(before).push(FamilyView::Named(name@)));
                }
                i = i + 1;
            }
            proof {
                assert(target.take(n as int) =~= target);
            }
        },
    }
    res
}

/// Expand a resolved CSS font-family list so that, for every named family with
/// registered `@font-face` `unicode-range` subsets, the synthetic per-subset
/// families are spliced in immediately *before* that family. Generic families
/// and families without subsets pass through untouched.
pub fn expand_font_face_subsets(
    families: Vec<parley::FontFamilyName>,
    subsets: &FontFaceSubsetMap,
    weight: u16,
    style: parley::FontStyle,
) -> (res: Vec<parley::FontFamilyName>)
    ensures
        family_views(res@) == expanded_families(family_views(families@), subsets@, weight, style),
{
    let ghost fs = family_views(families@);
    if subsets.is_empty() {
        proof {
            assert(none_registered(fs, subsets@));
            law_expansion_without_registered_subsets_is_identity(fs, subsets@, weight, style);
        }
        return families;
    }
    let mut expanded: Vec<parley::FontFamilyName> = Vec::new();
    let ghost all = families@;
    for family in it: families
        invariant
            all == it.seq(),
            fs == family_views(all),
            family_views(expanded@) == expanded_families(
                fs.take(it.index() as int),
                subsets@,
                weight,
                style,
            ),
    {
        let ghost i = it.index();
        let ghost before = expanded@;
        assert(family == all[i as int]);
        if let parley::FontFamilyName::Named(name) = &family {
            let key = to_lowercase(name.as_str());
            let mut extra = registered_subset_families(subsets, key.as_str(), weight, style);
            expanded.append(&mut extra);
        }
        expanded.push(family);
        proof {
            assert(fs.take(i + 1).drop_last() =~= fs.take(i as int));
            assert(fs.take(i + 1).last() == fs[i as int]);
            assert(family_views(expanded@) =~= family_views(before) + expanded_entry(
                fs[i as int],
                subsets@,
                weight,
                style,
            ));
        }
    }
    proof {
        assert(fs.take(fs.len() as int) =~= fs);
    }
    expanded
}

/// The relative line height of `line-height: normal`: 1.2 times the font
/// size (the bit pattern of the single-precision 1.2).
pub const NORMAL_LINE_HEIGHT_BITS: u32 = 0x3F99999A;

pub open spec fn spec_line_height(input: stylo::LineHeight) -> parley::LineHeight {
    match input {
        stylo::LineHeight::Normal => parley::LineHeight::FontSizeRelative(
            parley::Number { bits: NORMAL_LINE_HEIGHT_BITS },
        ),
        stylo::LineHeight::Number(num) => parley::LineHeight::FontSizeRelative(num),
        stylo::LineHeight::Length(px) => parley::LineHeight::Absolute(px),
    }
}

/// `normal` is 1.2 times the font size, a number is relative to the font size,
/// and a length is absolute.
pub fn line_height(input: stylo::LineHeight) -> (res: parley::LineHeight)
    ensures
        res == spec_line_height(input),
{
    match input {
        stylo::LineHeight::Normal => parley::LineHeight::FontSizeRelative(
            parley::Number { bits: NORMAL_LINE_HEIGHT_BITS },
        ),
        stylo::LineHeight::Number(num) => parley::LineHeight::FontSizeRelative(num),
        stylo::LineHeight::Length(px) => parley::LineHeight::Absolute(px),
    }
}

pub open spec fn spec_word_break(input: stylo::WordBreak) -> parley::WordBreak {
    match input {
        stylo::WordBreak::Normal => parley::WordBreak::Normal,
        stylo::WordBreak::BreakAll => parley::WordBreak::BreakAll,
        stylo::WordBreak::KeepAll => parley::WordBreak::KeepAll,
    }
}

pub open spec fn spec_overflow_wrap(input: stylo::OverflowWrap) -> parley::OverflowWrap {
    match input {
        stylo::OverflowWrap::Normal => parley::OverflowWrap::Normal,
        stylo::OverflowWrap::BreakWord => parley::OverflowWrap::BreakWord,
        stylo::OverflowWrap::Anywhere => parley::OverflowWrap::Anywhere,
    }
}

pub open spec fn spec_text_wrap_mode(input: stylo::TextWrapMode) -> parley::TextWrapMode {
    match input {
        stylo::TextWrapMode::Wrap => parley::TextWrapMode::Wrap,
        stylo::TextWrapMode::Nowrap => parley::TextWrapMode::NoWrap,
    }
}

/// The font stack a computed `font-family` list stands for, before expansion.
pub open spec fn spec_family_list(list: Seq<stylo::SingleFontFamily>, platform: Platform) -> Seq<
    FamilyView,
> {
    list.map_values(|f: stylo::SingleFontFamily| spec_family_entry(f, platform))
}

/// The font stack entries of a computed `font-family` list, in order.
pub fn font_family_list(list: &Vec<stylo::SingleFontFamily>, platform: Platform) -> (res: Vec<
    parley::FontFamilyName,
>)
    ensures
        family_views(res@) == spec_family_list(list@, platform),
{
    let n = list.len();
    let mut res: Vec<parley::FontFamilyName> = Vec::new();
    let mut i: usize = 0;
    while i < n
        invariant
            n == list@.len(),
            i <= n,
            family_views(res@) == spec_family_list(list@.take(i as int), platform),
        decreases n - i,
    {
        let ghost before = res@;
        res.push(font_family_name(&list[i], platform));
        proof {
            assert(list@.take(i + 1) =~= list@.take(i as int).push(list@[i as int]));
            assert(family_views(res@) =~= family_views(before).push(res@.last()@));
            assert(spec_family_list(list@.take(i + 1), platform) =~= spec_family_list(
                list@.take(i as int),
                platform,
            ).push(spec_family_entry(list@[i as int], platform)));
        }
        i = i + 1;
    }
    proof {
        assert(list@.take(n as int) =~= list@);
    }
    res
}

/// The layout style of the text span of node `span_id` with computed values
/// `computed`: converted font properties, the font stack with registered
/// `@font-face` subset families spliced in (see `expand_font_face_subsets`),
/// wrapping and breaking modes, and a brush naming the node.
pub fn style(
    span_id: usize,
    computed: &stylo::ComputedValues,
    font_face_subsets: &FontFaceSubsetMap,
    platform: Platform,
) -> (res: parley::TextStyle)
    ensures
        family_views(res.font_family@) == expanded_families(
            spec_family_list(computed.font.font_family@, platform),
            font_face_subsets@,
            computed.font.font_weight.fixed,
            spec_font_style(computed.font.font_style),
        ),
        res.font_size == computed.font.font_size,
        res.line_height == spec_line_height(computed.font.line_height),
        res.letter_spacing == computed.inherited_text.letter_spacing,
        res.word_spacing == computed.inherited_text.word_spacing,
        res.font_weight.scaled == computed.font.font_weight.fixed,
        res.font_style == spec_font_style(computed.font.font_style),
        res.font_width.scaled_percentage == computed.font.font_stretch.fixed,
        res.font_variations@ == computed.font.font_variation_settings.0@.map_values(
            |v: stylo::VariationValue| spec_font_variation(v),
        ),
        res.word_break == spec_word_break(computed.inherited_text.word_break),
        res.overflow_wrap == spec_overflow_wrap(computed.inherited_text.overflow_wrap),
        res.text_wrap_mode == spec_text_wrap_mode(computed.inherited_text.text_wrap_mode),
        res.brush.id == span_id,
        !res.has_underline,
        !res.has_strikethrough,
{
    let font_styles = computed.get_font();
    let itext_styles = computed.get_inherited_text();

    let font_size = font_styles.font_size;
    let line_height = line_height(font_styles.line_height);
    let letter_spacing = itext_styles.letter_spacing;
    let word_spacing = itext_styles.word_spacing;

    let font_weight = font_weight(font_styles.font_weight);
    let font_style = font_style(font_styles.font_style);
    let font_width = font_width(font_styles.font_stretch);
    let font_variations = font_variations(&font_styles.font_variation_settings);

    let families = font_family_list(&font_styles.font_family, platform);
    let families = expand_font_face_subsets(
        families,
        font_face_subsets,
        font_weight.value(),
        font_style,
    );

    let word_break = match itext_styles.word_break {
        stylo::WordBreak::Normal => parley::WordBreak::Normal,
        stylo::WordBreak::BreakAll => parley::WordBreak::BreakAll,
        stylo::WordBreak::KeepAll => parley::WordBreak::KeepAll,
    };
    let overflow_wrap = match itext_styles.overflow_wrap {
        stylo::OverflowWrap::Normal => parley::OverflowWrap::Normal,
        stylo::OverflowWrap::BreakWord => parley::OverflowWrap::BreakWord,
        stylo::OverflowWrap::Anywhere => parley::OverflowWrap::Anywhere,
    };
    let text_wrap_mode = match itext_styles.text_wrap_mode {
        stylo::TextWrapMode::Wrap => parley::TextWrapMode::Wrap,
        stylo::TextWrapMode::Nowrap => parley::TextWrapMode::NoWrap,
    };

    parley::TextStyle {
        font_family: families,
        font_size,
        font_width,
        font_style,
        font_weight,
        font_variations,
        line_height,
        word_spacing,
        letter_spacing,
        text_wrap_mode,
        overflow_wrap,
        word_break,
        brush: parley::TextBrush::from_id(span_id),
        has_underline: false,
        has_strikethrough: false,
    }
}

/// Law: a `font-family` list becomes a font stack of the same length whose
/// entries are the entries of the list, converted one by one, in order.
pub proof fn law_family_list(list: Seq<stylo::SingleFontFamily>, platform: Platform)
    ensures
        spec_family_list(list, platform).len() == list.len(),
        forall|i: int|
            0 <= i < list.len() ==> #[trigger] spec_family_list(list, platform)[i] == spec_family_entry(
                list[i],
                platform,
            ),
{
}

/// Law: text wrapping is kept: `wrap` gives wrapping layout and `nowrap`
/// gives non-wrapping layout.
pub proof fn law_text_wrap_mode_is_kept(t: stylo::TextWrapMode)
    ensures
        (spec_text_wrap_mode(t) is Wrap) <==> (t is Wrap),
        (spec_text_wrap_mode(t) is NoWrap) <==> (t is Nowrap),
{
}

/// Law: each word-break keyword gives the layout mode of the same name.
pub proof fn law_word_break_is_kept(t: stylo::WordBreak)
    ensures
        (spec_word_break(t) is Normal) <==> (t is Normal),
        (spec_word_break(t) is BreakAll) <==> (t is BreakAll),
        (spec_word_break(t) is KeepAll) <==> (t is KeepAll),
{
}

/// Law: each overflow-wrap keyword gives the layout mode of the same name.
pub proof fn law_overflow_wrap_is_kept(t: stylo::OverflowWrap)
    ensures
        (spec_overflow_wrap(t) is Normal) <==> (t is Normal),
        (spec_overflow_wrap(t) is BreakWord) <==> (t is BreakWord),
        (spec_overflow_wrap(t) is Anywhere) <==> (t is Anywhere),
{
}

/// Law: only `collapse` collapses white space.
pub proof fn law_white_space_collapse(t: stylo::WhiteSpaceCollapse)
    ensures
        (spec_white_space_collapse(t) is Collapse) <==> (t is Collapse),
{
}

/// Law: each generic keyword gives the generic family of the same name, and
/// no keyword gives sans-serif.
pub proof fn law_generic_family_is_kept(g: stylo::GenericFontFamily)
    ensures
        (spec_generic_font_family(g) is Serif) <==> (g is Serif),
        (spec_generic_font_family(g) is SansSerif) <==> (g is SansSerif || g is Unset),
        (spec_generic_font_family(g) is Monospace) <==> (g is Monospace),
        (spec_generic_font_family(g) is Cursive) <==> (g is Cursive),
        (spec_generic_font_family(g) is Fantasy) <==> (g is Fantasy),
        (spec_generic_font_family(g) is SystemUi) <==> (g is SystemUi),
{
}

/// Law: the angle 0 is upright, the angle of 100 degrees (25600 in 1/256
/// degree) is italic, and every other angle is oblique by exactly that angle.
pub proof fn law_font_style_angles(s: stylo::FontStyle)
    ensures
        (spec_font_style(s) is Normal) <==> s.fixed == 0,
        (spec_font_style(s) is Italic) <==> s.fixed == 25600,
        s.fixed != 0 && s.fixed != 25600 ==> spec_font_style(s) == parley::FontStyle::Oblique(
            Some(s.fixed),
        ),
{
}

/// Law: the four bytes of a variation tag, most significant first, make up
/// the tag again.
pub proof fn law_tag_bytes_recompose(tag: u32)
    ensures
        ({
            let t = spec_tag_of(tag);
            t.b0 as int * 0x1000000 + t.b1 as int * 0x10000 + t.b2 as int * 0x100 + t.b3 as int
                == tag as int
        }),
{
    let t = spec_tag_of(tag);
    assert(t.b0 as int == tag as int / 0x1000000);
    assert(t.b1 as int == (tag as int / 0x10000) % 0x100);
    assert(t.b2 as int == (tag as int / 0x100) % 0x100);
    assert(t.b3 as int == tag as int % 0x100);
}

/// Law: a variation setting keeps its value, and its tag's four bytes make
/// up the tag again.
pub proof fn law_font_variation(v: stylo::VariationValue)
    ensures
        spec_font_variation(v).value == v.value,
        ({
            let t = spec_font_variation(v).tag;
            t.b0 as int * 0x1000000 + t.b1 as int * 0x10000 + t.b2 as int * 0x100 + t.b3 as int
                == v.tag as int
        }),
{
    law_tag_bytes_recompose(v.tag);
}

/// Law: a line height given as a number stays relative to the font size with
/// the same value, a length stays an absolute length with the same value, and
/// `normal` is relative to the font size.
pub proof fn law_line_height_kinds(l: stylo::LineHeight)
    ensures
        (spec_line_height(l) is FontSizeRelative) <==> (l is Normal || l is Number),
        (spec_line_height(l) is Absolute) <==> (l is Length),
        l matches stylo::LineHeight::Number(x) ==> spec_line_height(l)
            == parley::LineHeight::FontSizeRelative(x),
        l matches stylo::LineHeight::Length(x) ==> spec_line_height(l) == parley::LineHeight::Absolute(
            x,
        ),
        l is Normal ==> spec_line_height(l) == parley::LineHeight::FontSizeRelative(
            parley::Number { bits: 0x3F99999A },
        ),
{
}

/// Law: the system-UI aliases. `-apple-system` stands for the system UI font
/// exactly on Apple platforms (macOS among them), `BlinkMacSystemFont`
/// exactly on macOS; every other name, and these names elsewhere, stay
/// named families.
pub proof fn law_system_ui_aliases(name: Seq<char>, platform: Platform)
    ensures
        name == "-apple-system"@ ==> (is_system_ui_alias(name, platform) <==> platform.apple_vendor),
        name == "BlinkMacSystemFont"@ ==> (is_system_ui_alias(name, platform) <==> platform.macos),
        name != "-apple-system"@ && name != "BlinkMacSystemFont"@ ==> !is_system_ui_alias(
            name,
            platform,
        ),
{
    reveal_strlit("-apple-system");
    reveal_strlit("BlinkMacSystemFont");
    assert("-apple-system"@.len() != "BlinkMacSystemFont"@.len());
}

/// Law: a family name becomes the system UI generic family when it is an
/// alias on the platform (`-apple-system` on any Apple platform,
/// `BlinkMacSystemFont` on macOS), and otherwise stays the named family.
pub proof fn law_family_entry_of_name(f: stylo::SingleFontFamily, platform: Platform)
    ensures
        f matches stylo::SingleFontFamily::FamilyName(nm) ==> {
            let alias = (nm.name@ == "-apple-system"@ && platform.apple_vendor) || (nm.name@
                == "BlinkMacSystemFont"@ && platform.macos);
            &&& alias ==> spec_family_entry(f, platform) == FamilyView::Generic(
                parley::GenericFamily::SystemUi,
            )
            &&& !alias ==> spec_family_entry(f, platform) == FamilyView::Named(nm.name@)
        },
        f matches stylo::SingleFontFamily::Generic(g) ==> spec_family_entry(f, platform)
            == FamilyView::Generic(spec_generic_font_family(g)),
{
    if let stylo::SingleFontFamily::FamilyName(nm) = f {
        law_system_ui_aliases(nm.name@, platform);
    }
}

} // verus!
