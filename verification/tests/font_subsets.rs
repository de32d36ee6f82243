use blitz_dom::parley::{FontFamilyName, FontStyle, GenericFamily};
use blitz_dom::stylo_to_parley::expand_font_face_subsets;
use blitz_dom::subsets::{select_covering_subsets, FontFaceSubset, FontFaceSubsetMap};

/// Weights are held in 1/64 of a weight unit.
fn weight(w: u16) -> u16 {
    w * 64
}

fn subset(family: &str, w: u16, style: FontStyle) -> FontFaceSubset {
    FontFaceSubset {
        family: family.to_string(),
        weight: weight(w),
        style,
    }
}

fn family_names(families: &[FontFamilyName]) -> Vec<String> {
    families
        .iter()
        .map(|f| match f {
            FontFamilyName::Named(name) => name.to_string(),
            FontFamilyName::Generic(_) => "<generic>".to_string(),
        })
        .collect()
}

#[test]
fn offers_every_subset_at_the_closest_weight() {
    // Two disjoint `unicode-range` subsets at weight 400, plus a 700 set.
    let group = [
        subset("a", 400, FontStyle::Normal),
        subset("b", 400, FontStyle::Normal),
        subset("c", 700, FontStyle::Normal),
    ];
    // A regular run gets both 400 subsets together, never the 700 face.
    assert_eq!(
        select_covering_subsets(&group, weight(400), FontStyle::Normal),
        ["a", "b"]
    );
    // A bold run gets the 700 face.
    assert_eq!(
        select_covering_subsets(&group, weight(700), FontStyle::Normal),
        ["c"]
    );
    // 500 is closer to 400 than to 700.
    assert_eq!(
        select_covering_subsets(&group, weight(500), FontStyle::Normal),
        ["a", "b"]
    );
}

#[test]
fn prefers_subsets_matching_the_requested_slant() {
    let group = [
        subset("up", 400, FontStyle::Normal),
        subset("it", 400, FontStyle::Italic),
    ];
    assert_eq!(
        select_covering_subsets(&group, weight(400), FontStyle::Normal),
        ["up"]
    );
    assert_eq!(
        select_covering_subsets(&group, weight(400), FontStyle::Italic),
        ["it"]
    );
    // Oblique is slanted, so it matches the italic face rather than upright.
    // (Angles are held in 1/256 of a degree.)
    assert_eq!(
        select_covering_subsets(&group, weight(400), FontStyle::Oblique(Some(14 * 256))),
        ["it"]
    );
}

#[test]
fn offers_all_subsets_when_no_slant_matches() {
    let group = [
        subset("a", 400, FontStyle::Normal),
        subset("b", 400, FontStyle::Normal),
    ];
    // Italic requested but only upright subsets exist: offer them all.
    assert_eq!(
        select_covering_subsets(&group, weight(400), FontStyle::Italic),
        ["a", "b"]
    );
}

#[test]
fn splices_subset_families_ahead_of_their_css_family() {
    let mut subsets = FontFaceSubsetMap::new();
    subsets.insert(
        "inter".to_string(),
        vec![
            subset("\u{1}ff-1", 400, FontStyle::Normal),
            subset("\u{1}ff-2", 400, FontStyle::Normal),
        ],
    );
    // Lookup is case-insensitive ("Inter" -> "inter"); generic families and
    // families without subsets pass through untouched.
    let families = vec![
        FontFamilyName::Named("Inter".to_string()),
        FontFamilyName::Named("Helvetica".to_string()),
        FontFamilyName::Generic(GenericFamily::SansSerif),
    ];
    let out = expand_font_face_subsets(families, &subsets, weight(400), FontStyle::Normal);
    assert_eq!(
        family_names(&out),
        ["\u{1}ff-1", "\u{1}ff-2", "Inter", "Helvetica", "<generic>"]
    );
}

#[test]
fn expansion_is_a_no_op_without_registered_subsets() {
    let subsets = FontFaceSubsetMap::new();
    let families = vec![FontFamilyName::Named("Inter".to_string())];
    let out = expand_font_face_subsets(families, &subsets, weight(400), FontStyle::Normal);
    assert_eq!(family_names(&out), ["Inter"]);
}

#[test]
fn empty_group_offers_nothing() {
    let group: [FontFaceSubset; 0] = [];
    assert!(select_covering_subsets(&group, weight(400), FontStyle::Normal).is_empty());
}

#[test]
fn non_empty_group_always_offers_a_subset() {
    let group = [subset("only", 900, FontStyle::Italic)];
    assert_eq!(
        select_covering_subsets(&group, weight(100), FontStyle::Normal),
        ["only"]
    );
}

#[test]
fn ties_in_distance_offer_both_sides_in_group_order() {
    // 500 is exactly between 400 and 600: both are at the closest distance.
    let group = [
        subset("six", 600, FontStyle::Normal),
        subset("four", 400, FontStyle::Normal),
        subset("nine", 900, FontStyle::Normal),
    ];
    assert_eq!(
        select_covering_subsets(&group, weight(500), FontStyle::Normal),
        ["six", "four"]
    );
}

#[test]
fn fractional_weights_are_compared_exactly() {
    // 450.5 (in 1/64 units) is closer to 500 than to 400.
    let group = [
        FontFaceSubset { family: "four".to_string(), weight: 400 * 64, style: FontStyle::Normal },
        FontFaceSubset { family: "five".to_string(), weight: 500 * 64, style: FontStyle::Normal },
    ];
    assert_eq!(
        select_covering_subsets(&group, 450 * 64 + 32 + 1, FontStyle::Normal),
        ["five"]
    );
}

#[test]
fn slanted_request_prefers_slanted_subsets_at_any_weight() {
    // The slant filter applies before the weight: an italic request takes the
    // italic face even when an upright face has the exact weight.
    let group = [
        subset("up400", 400, FontStyle::Normal),
        subset("it700", 700, FontStyle::Italic),
    ];
    assert_eq!(
        select_covering_subsets(&group, weight(400), FontStyle::Italic),
        ["it700"]
    );
}

#[test]
fn families_without_registered_subsets_pass_through_a_non_empty_map() {
    let mut subsets = FontFaceSubsetMap::new();
    subsets.insert("roboto".to_string(), vec![subset("r-1", 400, FontStyle::Normal)]);
    let families = vec![
        FontFamilyName::Named("Inter".to_string()),
        FontFamilyName::Generic(GenericFamily::Serif),
    ];
    let out = expand_font_face_subsets(families, &subsets, weight(400), FontStyle::Normal);
    assert_eq!(family_names(&out), ["Inter", "<generic>"]);
}

#[test]
fn each_named_family_gets_its_own_subsets_spliced_in() {
    let mut subsets = FontFaceSubsetMap::new();
    subsets.insert(
        "inter".to_string(),
        vec![
            subset("i-400", 400, FontStyle::Normal),
            subset("i-700", 700, FontStyle::Normal),
        ],
    );
    subsets.insert("noto sans".to_string(), vec![subset("n-it", 400, FontStyle::Italic)]);
    let families = vec![
        FontFamilyName::Named("INTER".to_string()),
        FontFamilyName::Generic(GenericFamily::Monospace),
        FontFamilyName::Named("Noto Sans".to_string()),
    ];
    let out = expand_font_face_subsets(families, &subsets, weight(650), FontStyle::Normal);
    assert_eq!(
        family_names(&out),
        ["i-700", "INTER", "<generic>", "n-it", "Noto Sans"]
    );
}
