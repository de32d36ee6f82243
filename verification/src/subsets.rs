//! Choosing, among the `@font-face` subsets registered for one CSS family,
//! which ones to offer the shaper.
use vstd::prelude::*;
use crate::parley::FontStyle;
use vstd::hash_map::StringHashMap;

verus! {

broadcast use vstd::seq_lib::group_seq_properties;

/// One `@font-face` rule of a family that is split into `unicode-range`
/// subsets: the synthetic family name it is registered under, its weight (in
/// 1/64 of a weight unit) and its style.
#[derive(Debug)]
pub struct FontFaceSubset {
    pub family: String,
    pub weight: u16,
    pub style: FontStyle,
}

/// The registered subsets of each CSS family, keyed by the family name in
/// lower case.
pub type FontFaceSubsetMap = StringHashMap<Vec<FontFaceSubset>>;

/// How far apart two weights are.
pub open spec fn weight_distance(a: u16, b: u16) -> nat {
    if a >= b {
        (a - b) as nat
    } else {
        (b - a) as nat
    }
}

/// A distance larger than any two weights can be apart; the closest distance
/// within an empty list.
pub open spec fn no_distance() -> nat {
    0x10000
}

/// Whether a subset is slanted exactly when the requested style is.
pub open spec fn matches_slant(s: FontFaceSubset, style: FontStyle) -> bool {
    s.style.spec_is_slanted() == style.spec_is_slanted()
}

/// Whether some subset of the group has the requested slant.
pub open spec fn any_matches_slant(group: Seq<FontFaceSubset>, style: FontStyle) -> bool {
    exists|i: int| 0 <= i < group.len() && matches_slant(#[trigger] group[i], style)
}

/// Whether a subset is considered at all: it has the requested slant, or no
/// subset of the group has it.
pub open spec fn is_candidate(group: Seq<FontFaceSubset>, s: FontFaceSubset, style: FontStyle) -> bool {
    !any_matches_slant(group, style) || matches_slant(s, style)
}

/// The subsets considered, in group order.
pub open spec fn candidate_subsets(group: Seq<FontFaceSubset>, style: FontStyle) -> Seq<
    FontFaceSubset,
> {
    group.filter(|s: FontFaceSubset| is_candidate(group, s, style))
}

/// The smallest distance from `weight` of the weights in `c`.
pub open spec fn closest_distance(c: Seq<FontFaceSubset>, weight: u16) -> nat
    decreases c.len(),
{
    if c.len() == 0 {
        no_distance()
    } else {
        let rest = closest_distance(c.drop_last(), weight);
        let d = weight_distance(c.last().weight, weight);
        if d < rest {
            d
        } else {
            rest
        }
    }
}

/// Whether a subset lies at distance `best` from `weight`.
pub open spec fn at_distance(s: FontFaceSubset, weight: u16, best: nat) -> bool {
    weight_distance(s.weight, weight) == best
}

/// The subsets offered: the considered ones at the closest weight, in group
/// order.
pub open spec fn covering_subsets(group: Seq<FontFaceSubset>, weight: u16, style: FontStyle) -> Seq<
    FontFaceSubset,
> {
    let c = candidate_subsets(group, style);
    let best = closest_distance(c, weight);
    c.filter(|s: FontFaceSubset| at_distance(s, weight, best))
}

/// The family names of a list of subsets, in order.
pub open spec fn subset_families(s: Seq<FontFaceSubset>) -> Seq<Seq<char>> {
    s.map_values(|f: FontFaceSubset| f.family@)
}

/// The views of a list of string slices, in order.
pub open spec fn str_views(s: Seq<&str>) -> Seq<Seq<char>> {
    s.map_values(|x: &str| x@)
}

fn weight_gap(a: u16, b: u16) -> (res: u16)
    ensures
        res as nat == weight_distance(a, b),
{
    if a >= b {
        a - b
    } else {
        b - a
    }
}

/// From one CSS family's registered subsets, pick the group to offer the shaper:
/// the subsets matching the requested slant (italic/oblique vs upright), and
/// among those the ones at the weight closest to `weight`. Every subset sharing
/// that closest weight is returned, because a single CSS family is split across
/// many disjoint-`unicode-range` files at the same weight and style.
/// If no subset matches the requested slant, every subset is considered.
pub fn select_covering_subsets<'a>(group: &'a [FontFaceSubset], weight: u16, style: FontStyle) -> (res:
    Vec<&'a str>)
    ensures
        str_views(res@) == subset_families(covering_subsets(group@, weight, style)),
{
    let want_slanted = style.is_slanted();
    let n = group.len();
    let ghost g = group@;

    // Does any subset have the requested slant?
    let mut any_match = false;
    let mut i: usize = 0;
    while i < n
        invariant
            n == g.len(),
            g == group@,
            i <= n,
            want_slanted == style.spec_is_slanted(),
            any_match <==> exists|j: int| 0 <= j < i && matches_slant(#[trigger] g[j], style),
        decreases n - i,
    {
        if group[i].style.is_slanted() == want_slanted {
            any_match = true;
        }
        i = i + 1;
    }
    assert(any_match == any_matches_slant(g, style));

    let ghost cand = |s: FontFaceSubset| is_candidate(g, s, style);

    // The closest distance among the considered subsets.
    let mut best: u32 = 0x10000;
    let mut i: usize = 0;
    while i < n
        invariant
            n == g.len(),
            g == group@,
            i <= n,
            want_slanted == style.spec_is_slanted(),
            any_match == any_matches_slant(g, style),
            cand == (|s: FontFaceSubset| is_candidate(g, s, style)),
            best as nat == closest_distance(g.take(i as int).filter(cand), weight),
        decreases n - i,
    {
        proof {
            assert(g.take(i + 1) =~= g.take(i as int).push(g[i as int]));
            g.take(i as int).lemma_filter_push(g[i as int], cand);
        }
        if !any_match || group[i].style.is_slanted() == want_slanted {
            let d = weight_gap(group[i].weight, weight);
            proof {
                let f = g.take(i as int).filter(cand);
                assert(f.push(g[i as int]).drop_last() =~= f);
            }
            if (d as u32) < best {
                best = d as u32;
            }
        }
        i = i + 1;
    }
    proof {
        assert(g.take(n as int) =~= g);
    }

    // The considered subsets at that distance, in order.
    let ghost close = |s: FontFaceSubset| at_distance(s, weight, best as nat);
    let mut res: Vec<&'a str> = Vec::new();
    let mut i: usize = 0;
    while i < n
        invariant
            n == g.len(),
            g == group@,
            i <= n,
            want_slanted == style.spec_is_slanted(),
            any_match == any_matches_slant(g, style),
            cand == (|s: FontFaceSubset| is_candidate(g, s, style)),
            best as nat == closest_distance(g.filter(cand), weight),
            close == (|s: FontFaceSubset| at_distance(s, weight, best as nat)),
            str_views(res@) == subset_families(g.take(i as int).filter(cand).filter(close)),
        decreases n - i,
    {
        let ghost f = g.take(i as int).filter(cand);
        proof {
            assert(g.take(i + 1) =~= g.take(i as int).push(g[i as int]));
            g.take(i as int).lemma_filter_push(g[i as int], cand);
            f.lemma_filter_push(g[i as int], close);
        }
        if !any_match || group[i].style.is_slanted() == want_slanted {
            let d = weight_gap(group[i].weight, weight);
            if d as u32 == best {
                let name: &'a str = group[i].family.as_str();
                let ghost before = res@;
                res.push(name);
                proof {
                    assert(res@ =~= before.push(name));
                    assert(str_views(res@) =~= str_views(before).push(name@));
                    assert(subset_families(f.filter(close).push(g[i as int])) =~= subset_families(
                        f.filter(close),
                    ).push(g[i as int].family@));
                }
            }
        }
        i = i + 1;
    }
    proof {
        assert(g.take(n as int) =~= g);
    }
    res
}

/// No weight of `c` is closer to `weight` than `closest_distance(c, weight)`.
pub proof fn lemma_closest_is_lower_bound(c: Seq<FontFaceSubset>, weight: u16)
    ensures
        forall|i: int|
            0 <= i < c.len() ==> closest_distance(c, weight) <= weight_distance(
                #[trigger] c[i].weight,
                weight,
            ),
    decreases c.len(),
{
    if c.len() > 0 {
        let rest = c.drop_last();
        lemma_closest_is_lower_bound(rest, weight);
        assert forall|i: int| 0 <= i < c.len() implies closest_distance(c, weight)
            <= weight_distance(#[trigger] c[i].weight, weight) by {
            if i < c.len() - 1 {
                assert(rest[i] == c[i]);
            }
        }
    }
}

/// Some weight of a non-empty `c` lies at `closest_distance(c, weight)`.
pub proof fn lemma_closest_is_attained(c: Seq<FontFaceSubset>, weight: u16)
    requires
        c.len() > 0,
    ensures
        exists|i: int|
            0 <= i < c.len() && weight_distance(#[trigger] c[i].weight, weight) == closest_distance(
                c,
                weight,
            ),
    decreases c.len(),
{
    let rest = c.drop_last();
    let d = weight_distance(c.last().weight, weight);
    if rest.len() > 0 && closest_distance(rest, weight) <= d {
        lemma_closest_is_attained(rest, weight);
        let i = choose|i: int|
            0 <= i < rest.len() && weight_distance(#[trigger] rest[i].weight, weight)
                == closest_distance(rest, weight);
        assert(c[i] == rest[i]);
    } else {
        lemma_closest_is_lower_bound(rest, weight);
        assert(c[c.len() - 1] == c.last());
    }
}

/// Law: when no subset of the group has the requested slant, every subset is
/// considered (the slant is left to be synthesized rather than dropping
/// characters).
pub proof fn law_all_subsets_considered_without_slant_match(group: Seq<FontFaceSubset>, style: FontStyle)
    requires
        !any_matches_slant(group, style),
    ensures
        candidate_subsets(group, style) == group,
{
    let cand = |s: FontFaceSubset| is_candidate(group, s, style);
    assert forall|n: int| 0 <= n <= group.len() implies #[trigger] group.take(n).filter(cand) == group.take(n) by {
        lemma_filter_all(group, cand, n);
    }
    assert(group.take(group.len() as int) =~= group);
}

proof fn lemma_filter_all(group: Seq<FontFaceSubset>, p: spec_fn(FontFaceSubset) -> bool, n: int)
    requires
        0 <= n <= group.len(),
        forall|i: int| 0 <= i < group.len() ==> p(#[trigger] group[i]),
    ensures
        group.take(n).filter(p) == group.take(n),
    decreases n,
{
    if n > 0 {
        lemma_filter_all(group, p, n - 1);
        assert(group.take(n) =~= group.take(n - 1).push(group[n - 1]));
        group.take(n - 1).lemma_filter_push(group[n - 1], p);
    } else {
        assert(group.take(0) =~= Seq::<FontFaceSubset>::empty());
        reveal(Seq::filter);
    }
}

/// Law: every subset offered has the requested slant (italic or oblique versus
/// upright), unless no subset of the group has it.
pub proof fn law_offered_subsets_match_slant(group: Seq<FontFaceSubset>, weight: u16, style: FontStyle)
    ensures
        any_matches_slant(group, style) ==> forall|i: int|
            0 <= i < covering_subsets(group, weight, style).len() ==> matches_slant(
                #[trigger] covering_subsets(group, weight, style)[i],
                style,
            ),
{
    broadcast use vstd::seq_lib::group_filter_ensures;

    let c = candidate_subsets(group, style);
    let best = closest_distance(c, weight);
    let close = |s: FontFaceSubset| at_distance(s, weight, best);
    let cand = |s: FontFaceSubset| is_candidate(group, s, style);
    assert forall|i: int| 0 <= i < c.filter(close).len() implies is_candidate(
        group,
        #[trigger] c.filter(close)[i],
        style,
    ) by {
        let x = c.filter(close)[i];
        assert(c.filter(close).contains(x));
        c.lemma_filter_contains_rev(close, x);
        let k = choose|k: int| 0 <= k < c.len() && c[k] == x;
        assert(cand(c[k]));
    }
}

/// Law: every subset offered is one of the group's, is considered, and lies at
/// least as close to the requested weight as every considered subset.
pub proof fn law_offered_subsets_are_closest(group: Seq<FontFaceSubset>, weight: u16, style: FontStyle)
    ensures
        forall|i: int|
            0 <= i < covering_subsets(group, weight, style).len() ==> {
                let o = #[trigger] covering_subsets(group, weight, style)[i];
                &&& group.contains(o)
                &&& is_candidate(group, o, style)
                &&& forall|j: int|
                    0 <= j < group.len() && is_candidate(group, #[trigger] group[j], style)
                        ==> weight_distance(o.weight, weight) <= weight_distance(
                        group[j].weight,
                        weight,
                    )
            },
{
    broadcast use vstd::seq_lib::group_filter_ensures;

    let c = candidate_subsets(group, style);
    let best = closest_distance(c, weight);
    let close = |s: FontFaceSubset| at_distance(s, weight, best);
    let cand = |s: FontFaceSubset| is_candidate(group, s, style);
    lemma_closest_is_lower_bound(c, weight);
    assert forall|i: int| 0 <= i < c.filter(close).len() implies {
        let o = #[trigger] c.filter(close)[i];
        &&& group.contains(o)
        &&& is_candidate(group, o, style)
        &&& forall|j: int|
            0 <= j < group.len() && is_candidate(group, #[trigger] group[j], style)
                ==> weight_distance(o.weight, weight) <= weight_distance(group[j].weight, weight)
    } by {
        let o = c.filter(close)[i];
        assert(c.filter(close).contains(o));
        c.lemma_filter_contains_rev(close, o);
        group.lemma_filter_contains_rev(cand, o);
        let k = choose|k: int| 0 <= k < c.len() && c[k] == o;
        assert(cand(c[k]));
        assert(close(o));
        assert forall|j: int|
            0 <= j < group.len() && is_candidate(group, #[trigger] group[j], style) implies weight_distance(
            o.weight,
            weight,
        ) <= weight_distance(group[j].weight, weight) by {
            assert(cand(group[j]));
            assert(c.contains(group[j]));
            let m = choose|m: int| 0 <= m < c.len() && c[m] == group[j];
            assert(best <= weight_distance(c[m].weight, weight));
        }
    }
}

/// Law: every considered subset at the closest weight is offered: a family
/// split across several `unicode-range` files at one weight and style is
/// offered whole.
pub proof fn law_closest_subsets_all_offered(group: Seq<FontFaceSubset>, weight: u16, style: FontStyle)
    ensures
        forall|j: int|
            0 <= j < group.len() && is_candidate(group, #[trigger] group[j], style) && (forall|k: int|
                0 <= k < group.len() && is_candidate(group, #[trigger] group[k], style)
                    ==> weight_distance(group[j].weight, weight) <= weight_distance(
                    group[k].weight,
                    weight,
                )) ==> covering_subsets(group, weight, style).contains(group[j]),
{
    broadcast use vstd::seq_lib::group_filter_ensures;

    let c = candidate_subsets(group, style);
    let best = closest_distance(c, weight);
    let close = |s: FontFaceSubset| at_distance(s, weight, best);
    let cand = |s: FontFaceSubset| is_candidate(group, s, style);
    lemma_closest_is_lower_bound(c, weight);
    assert forall|j: int|
        0 <= j < group.len() && is_candidate(group, #[trigger] group[j], style) && (forall|k: int|
            0 <= k < group.len() && is_candidate(group, #[trigger] group[k], style)
                ==> weight_distance(group[j].weight, weight) <= weight_distance(
                group[k].weight,
                weight,
            )) implies c.filter(close).contains(group[j]) by {
        assert(cand(group[j]));
        assert(c.contains(group[j]));
        lemma_closest_is_attained(c, weight);
        let m = choose|m: int|
            0 <= m < c.len() && weight_distance(#[trigger] c[m].weight, weight) == best;
        assert(c.contains(c[m]));
        group.lemma_filter_contains_rev(cand, c[m]);
        let k = choose|k: int| 0 <= k < group.len() && group[k] == c[m];
        assert(cand(c[m]));
        assert(is_candidate(group, group[k], style));
        let jj = choose|jj: int| 0 <= jj < c.len() && c[jj] == group[j];
        assert(best <= weight_distance(c[jj].weight, weight));
        assert(close(c[jj]));
    }
}

/// Law: a non-empty group always offers at least one subset.
pub proof fn law_some_subset_offered(group: Seq<FontFaceSubset>, weight: u16, style: FontStyle)
    requires
        group.len() > 0,
    ensures
        covering_subsets(group, weight, style).len() > 0,
{
    broadcast use vstd::seq_lib::group_filter_ensures;

    let c = candidate_subsets(group, style);
    let best = closest_distance(c, weight);
    let close = |s: FontFaceSubset| at_distance(s, weight, best);
    let cand = |s: FontFaceSubset| is_candidate(group, s, style);
    if any_matches_slant(group, style) {
        let i = choose|i: int| 0 <= i < group.len() && matches_slant(#[trigger] group[i], style);
        assert(cand(group[i]));
        assert(c.contains(group[i]));
    } else {
        assert(cand(group[0]));
        assert(c.contains(group[0]));
    }
    assert(c.len() > 0);
    lemma_closest_is_attained(c, weight);
    let m = choose|m: int| 0 <= m < c.len() && weight_distance(#[trigger] c[m].weight, weight) == best;
    assert(close(c[m]));
    assert(c.filter(close).contains(c[m]));
}

/// Law: the distance between two weights is their absolute difference.
pub proof fn law_weight_distance_is_absolute_difference(a: u16, b: u16)
    ensures
        weight_distance(a, b) == vstd::math::abs(a as int - b as int),
{
}

/// Law, over plain integers: every subset offered belongs to the group; it
/// is upright exactly when the requested style is upright, unless no subset
/// of the group is; and no subset of the group that is considered (one with
/// the requested uprightness, or any subset when none has it) lies closer to
/// the requested weight, measured as the absolute difference of the weights.
pub proof fn law_offered_subsets_are_nearest(group: Seq<FontFaceSubset>, weight: u16, style: FontStyle)
    ensures
        forall|i: int|
            0 <= i < covering_subsets(group, weight, style).len() ==> {
                let o = #[trigger] covering_subsets(group, weight, style)[i];
                &&& group.contains(o)
                &&& (exists|k: int|
                    0 <= k < group.len() && ((#[trigger] group[k]).style is Normal) == (style is Normal))
                    ==> ((o.style is Normal) == (style is Normal))
                &&& forall|j: int|
                    0 <= j < group.len() && ((forall|k: int|
                        0 <= k < group.len() ==> ((#[trigger] group[k]).style is Normal) != (
                        style is Normal)) || ((#[trigger] group[j]).style is Normal) == (style is Normal))
                        ==> vstd::math::abs(o.weight - weight) <= vstd::math::abs(
                        group[j].weight - weight,
                    )
            },
{
    law_offered_subsets_are_closest(group, weight, style);
    law_offered_subsets_match_slant(group, weight, style);
    let cov = covering_subsets(group, weight, style);
    assert forall|i: int| 0 <= i < cov.len() implies {
        let o = #[trigger] cov[i];
        &&& group.contains(o)
        &&& (exists|k: int|
            0 <= k < group.len() && ((#[trigger] group[k]).style is Normal) == (style is Normal))
            ==> ((o.style is Normal) == (style is Normal))
        &&& forall|j: int|
            0 <= j < group.len() && ((forall|k: int|
                0 <= k < group.len() ==> ((#[trigger] group[k]).style is Normal) != (style is Normal))
                || ((#[trigger] group[j]).style is Normal) == (style is Normal))
                ==> vstd::math::abs(o.weight - weight) <= vstd::math::abs(group[j].weight - weight)
    } by {
        let o = cov[i];
        if exists|k: int|
            0 <= k < group.len() && ((#[trigger] group[k]).style is Normal) == (style is Normal) {
            let k = choose|k: int|
                0 <= k < group.len() && ((#[trigger] group[k]).style is Normal) == (style is Normal);
            assert(matches_slant(group[k], style));
            assert(any_matches_slant(group, style));
        }
        assert forall|j: int|
            0 <= j < group.len() && ((forall|k: int|
                0 <= k < group.len() ==> ((#[trigger] group[k]).style is Normal) != (style is Normal))
                || ((#[trigger] group[j]).style is Normal) == (style is Normal)) implies vstd::math::abs(
            o.weight - weight,
        ) <= vstd::math::abs(group[j].weight - weight) by {
            if any_matches_slant(group, style) {
                let k = choose|k: int| 0 <= k < group.len() && matches_slant(#[trigger] group[k], style);
                assert((group[k].style is Normal) == (style is Normal));
            }
            assert(is_candidate(group, group[j], style));
        }
    }
}

/// Law, over plain integers: every considered subset (one with the requested
/// uprightness, or any subset when none has it) whose weight is nearest the
/// requested weight among the considered ones is offered.
pub proof fn law_nearest_subsets_are_offered(group: Seq<FontFaceSubset>, weight: u16, style: FontStyle)
    ensures
        forall|j: int|
            0 <= j < group.len() && ((forall|k: int|
                0 <= k < group.len() ==> ((#[trigger] group[k]).style is Normal) != (style is Normal))
                || ((#[trigger] group[j]).style is Normal) == (style is Normal)) && (forall|m: int|
                0 <= m < group.len() && ((forall|k: int|
                    0 <= k < group.len() ==> ((#[trigger] group[k]).style is Normal) != (
                    style is Normal)) || ((#[trigger] group[m]).style is Normal) == (style is Normal))
                    ==> vstd::math::abs(group[j].weight - weight) <= vstd::math::abs(
                    group[m].weight - weight,
                )) ==> covering_subsets(group, weight, style).contains(group[j]),
{
    law_closest_subsets_all_offered(group, weight, style);
    assert forall|j: int|
        0 <= j < group.len() && ((forall|k: int|
            0 <= k < group.len() ==> ((#[trigger] group[k]).style is Normal) != (style is Normal))
            || ((#[trigger] group[j]).style is Normal) == (style is Normal)) && (forall|m: int|
            0 <= m < group.len() && ((forall|k: int|
                0 <= k < group.len() ==> ((#[trigger] group[k]).style is Normal) != (style is Normal))
                || ((#[trigger] group[m]).style is Normal) == (style is Normal))
                ==> vstd::math::abs(group[j].weight - weight) <= vstd::math::abs(
                group[m].weight - weight,
            )) implies covering_subsets(group, weight, style).contains(group[j]) by {
        let none_match = forall|k: int|
            0 <= k < group.len() ==> ((#[trigger] group[k]).style is Normal) != (style is Normal);
        if any_matches_slant(group, style) {
            let k = choose|k: int| 0 <= k < group.len() && matches_slant(#[trigger] group[k], style);
            assert((group[k].style is Normal) == (style is Normal));
            assert(!none_match);
        } else {
            assert(none_match) by {
                assert forall|k: int| 0 <= k < group.len() implies ((#[trigger] group[k]).style is Normal)
                    != (style is Normal) by {
                    if (group[k].style is Normal) == (style is Normal) {
                        assert(matches_slant(group[k], style));
                    }
                }
            }
        }
        assert(is_candidate(group, group[j], style));
        assert forall|m: int|
            0 <= m < group.len() && is_candidate(group, #[trigger] group[m], style) implies weight_distance(
            group[j].weight,
            weight,
        ) <= weight_distance(group[m].weight, weight) by {
            if any_matches_slant(group, style) {
                assert((group[m].style is Normal) == (style is Normal));
            }
        }
    }
}

/// Whether `idx` places each element of `sub` at a position of `s`, with
/// positions strictly increasing.
pub open spec fn is_subsequence_by(sub: Seq<FontFaceSubset>, s: Seq<FontFaceSubset>, idx: Seq<int>) -> bool {
    &&& idx.len() == sub.len()
    &&& forall|i: int| 0 <= i < idx.len() ==> 0 <= #[trigger] idx[i] < s.len() && sub[i] == s[idx[i]]
    &&& forall|i: int, j: int| 0 <= i < j < idx.len() ==> #[trigger] idx[i] < #[trigger] idx[j]
}

proof fn lemma_filter_is_subsequence(s: Seq<FontFaceSubset>, p: spec_fn(FontFaceSubset) -> bool)
    ensures
        exists|idx: Seq<int>| #[trigger] is_subsequence_by(s.filter(p), s, idx),
    decreases s.len(),
{
    reveal(Seq::filter);
    if s.len() == 0 {
        assert(is_subsequence_by(s.filter(p), s, Seq::<int>::empty()));
    } else {
        let r = s.drop_last();
        lemma_filter_is_subsequence(r, p);
        let idx = choose|idx: Seq<int>| is_subsequence_by(r.filter(p), r, idx);
        if p(s.last()) {
            let idx2 = idx.push(s.len() - 1);
            assert(s.filter(p) == r.filter(p).push(s.last()));
            assert forall|i: int| 0 <= i < idx2.len() implies 0 <= #[trigger] idx2[i] < s.len()
                && s.filter(p)[i] == s[idx2[i]] by {
                if i < idx.len() {
                    assert(r[idx[i]] == s[idx[i]]);
                }
            }
            assert(is_subsequence_by(s.filter(p), s, idx2));
        } else {
            assert forall|i: int| 0 <= i < idx.len() implies 0 <= #[trigger] idx[i] < s.len()
                && s.filter(p)[i] == s[idx[i]] by {
                assert(r[idx[i]] == s[idx[i]]);
            }
            assert(is_subsequence_by(s.filter(p), s, idx));
        }
    }
}

/// Law: the offered subsets appear in the group in the same order, each at
/// its own position (none is offered twice unless it is in the group twice).
pub proof fn law_offered_subsets_keep_group_order(group: Seq<FontFaceSubset>, weight: u16, style: FontStyle)
    ensures
        exists|idx: Seq<int>| #[trigger] is_subsequence_by(covering_subsets(group, weight, style), group, idx),
{
    let c = candidate_subsets(group, style);
    let best = closest_distance(c, weight);
    let close = |s: FontFaceSubset| at_distance(s, weight, best);
    let cand = |s: FontFaceSubset| is_candidate(group, s, style);
    lemma_filter_is_subsequence(group, cand);
    let i1 = choose|idx: Seq<int>| is_subsequence_by(c, group, idx);
    lemma_filter_is_subsequence(c, close);
    let i2 = choose|idx: Seq<int>| is_subsequence_by(c.filter(close), c, idx);
    let cov = c.filter(close);
    let idx = i2.map_values(|k: int| i1[k]);
    assert forall|i: int| 0 <= i < idx.len() implies 0 <= #[trigger] idx[i] < group.len() && cov[i]
        == group[idx[i]] by {
        assert(0 <= i2[i] < c.len());
    }
    assert forall|i: int, j: int| 0 <= i < j < idx.len() implies #[trigger] idx[i] < #[trigger] idx[j] by {
        assert(i2[i] < i2[j]);
        assert(0 <= i2[i] && i2[j] < c.len());
    }
    assert(is_subsequence_by(cov, group, idx));
    assert(covering_subsets(group, weight, style) == cov);
    assert(is_subsequence_by(covering_subsets(group, weight, style), group, idx));
}

} // verus!
