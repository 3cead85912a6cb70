//! Laws of the selection engine, stated and proved over the models.

use vstd::prelude::*;

use crate::filter::types::{spec_tag_allowed, spec_tag_blacklisted, spec_tag_explicitly_allowed, FilterModel};
use crate::filter::{
    pair_htmls, spec_collapse, spec_filter, spec_heavy, spec_heavy_seq, spec_light, spec_light_seq,
    spec_match_depth, spec_match_depth_seq,
};
use crate::filter::types::{spec_comment_ambient, spec_doctype_ambient, spec_text_ambient};
use crate::types::html::HtmlModel;

verus! {

/// Whether an explicitly matching tag stands exactly `k` tags below this
/// node. Sequence nodes add no distance.
pub open spec fn spec_match_at(m: HtmlModel, f: FilterModel, k: int) -> bool
    decreases m,
{
    match m {
        HtmlModel::Tag { tag, child, .. } => (k == 0 && spec_tag_explicitly_allowed(f, tag)) || (k
            > 0 && spec_match_at(*child, f, k - 1)),
        HtmlModel::Vec(v) => spec_match_at_seq(v, f, k),
        _ => false,
    }
}

/// Whether some sibling has a match exactly `k` tags below.
pub open spec fn spec_match_at_seq(v: Seq<HtmlModel>, f: FilterModel, k: int) -> bool
    decreases v,
{
    if v.len() == 0 {
        false
    } else {
        spec_match_at_seq(v.drop_last(), f, k) || spec_match_at(v.last(), f, k)
    }
}

/// Minimal-depth selection: the probe the selection engine anchors its
/// depth window on is sound and minimal. When it reports a match at distance
/// `d`, a match stands exactly `d` tags down and none stands nearer; and a
/// match strictly within the bound is never missed. (At the bound itself a
/// match wrapped in a sequence node is not seen, which is why the engine
/// probes one tag past its window.)
pub proof fn lemma_match_depth_minimal(m: HtmlModel, f: FilterModel, max: int)
    requires
        0 <= max,
    ensures
        match spec_match_depth(m, f, max) {
            Some(d) => 0 <= d <= max && spec_match_at(m, f, d) && (forall|k: int|
                0 <= k < d ==> !spec_match_at(m, f, k)),
            None => forall|k: int| 0 <= k < max ==> !spec_match_at(m, f, k),
        },
{
    lemma_match_depth_sound(m, f, max);
    lemma_match_depth_complete(m, f, max);
    match spec_match_depth(m, f, max) {
        Some(d) => {
            assert forall|k: int| 0 <= k < d implies !spec_match_at(m, f, k) by {
                if spec_match_at(m, f, k) {
                    assert(k < max);
                }
            }
        },
        None => {
            assert forall|k: int| 0 <= k < max implies !spec_match_at(m, f, k) by {
                if spec_match_at(m, f, k) {
                }
            }
        },
    }
}

/// Soundness of the probe: a reported distance is a real match distance
/// within the bound.
proof fn lemma_match_depth_sound(m: HtmlModel, f: FilterModel, max: int)
    requires
        0 <= max,
    ensures
        match spec_match_depth(m, f, max) {
            Some(d) => 0 <= d <= max && spec_match_at(m, f, d),
            None => true,
        },
    decreases m, 0int,
{
    match m {
        HtmlModel::Tag { tag, child, .. } => {
            if !spec_tag_explicitly_allowed(f, tag) && max > 0 {
                lemma_match_depth_sound(*child, f, max - 1);
            }
        },
        HtmlModel::Vec(v) => {
            if max > 0 {
                lemma_match_depth_seq_sound(v, f, max);
            }
        },
        _ => {},
    }
}

/// The sequence form of [`lemma_match_depth_sound`].
proof fn lemma_match_depth_seq_sound(v: Seq<HtmlModel>, f: FilterModel, max: int)
    requires
        0 <= max,
    ensures
        match spec_match_depth_seq(v, f, max) {
            Some(d) => 0 <= d <= max && spec_match_at_seq(v, f, d),
            None => true,
        },
    decreases v, 1int,
{
    if v.len() > 0 {
        lemma_match_depth_seq_sound(v.drop_last(), f, max);
        lemma_match_depth_sound(v.last(), f, max);
    }
}

/// Completeness of the probe strictly within the bound: a match nearer than
/// `max` is reported at its distance or nearer.
proof fn lemma_match_depth_complete(m: HtmlModel, f: FilterModel, max: int)
    requires
        0 <= max,
    ensures
        forall|k: int|
            0 <= k < max && #[trigger] spec_match_at(m, f, k) ==> (spec_match_depth(m, f, max)
                matches Some(d) && d <= k),
    decreases m, 0int,
{
    assert forall|k: int|
        0 <= k < max && #[trigger] spec_match_at(m, f, k) implies (spec_match_depth(m, f, max)
        matches Some(d) && d <= k) by {
        lemma_match_depth_complete_at(m, f, max, k);
    }
}

/// One instance of completeness, for a match at distance `k`.
proof fn lemma_match_depth_complete_at(m: HtmlModel, f: FilterModel, max: int, k: int)
    requires
        0 <= k < max,
        spec_match_at(m, f, k),
    ensures
        spec_match_depth(m, f, max) matches Some(d) && d <= k,
    decreases m, 0int,
{
    match m {
        HtmlModel::Tag { tag, child, .. } => {
            if !spec_tag_explicitly_allowed(f, tag) {
                lemma_match_depth_complete_at(*child, f, max - 1, k - 1);
            }
        },
        HtmlModel::Vec(v) => {
            lemma_match_depth_seq_complete_at(v, f, max, k);
        },
        _ => {},
    }
}

/// The sequence form of [`lemma_match_depth_complete_at`].
proof fn lemma_match_depth_seq_complete_at(v: Seq<HtmlModel>, f: FilterModel, max: int, k: int)
    requires
        0 <= k < max,
        spec_match_at_seq(v, f, k),
    ensures
        spec_match_depth_seq(v, f, max) matches Some(d) && d <= k,
    decreases v, 1int,
{
    if v.len() > 0 {
        if spec_match_at(v.last(), f, k) {
            lemma_match_depth_complete_at(v.last(), f, max, k);
        } else {
            lemma_match_depth_seq_complete_at(v.drop_last(), f, max, k);
        }
    }
}

/// Filtering is a function of the tree's and the filter's values alone: two
/// trees that hold the same value filter to the same result under the same
/// rules. The consuming [`crate::prelude::Html::filter`] and the borrowing
/// [`crate::prelude::Html::to_filtered`] both pin their result to
/// [`spec_filter`] of their argument's value, so on equivalent trees the two
/// return equal trees.
pub proof fn lemma_borrowed_owned_agree(a: HtmlModel, b: HtmlModel, f: FilterModel)
    requires
        a == b,
    ensures
        spec_filter(a, f) == spec_filter(b, f),
{
}

/// The light pass is idempotent: running it a second time with the same
/// rules removes nothing more.
pub proof fn lemma_light_idempotent(m: HtmlModel, f: FilterModel)
    ensures
        spec_light(spec_light(m, f), f) == spec_light(m, f),
    decreases m, 0int,
{
    match m {
        HtmlModel::Tag { tag, child, .. } => {
            if !spec_tag_blacklisted(f, tag) {
                lemma_light_idempotent(*child, f);
            }
        },
        HtmlModel::Vec(v) => {
            lemma_light_seq_idempotent(v, f);
            let lv = spec_light_seq(v, f);
            if lv.len() == 1 {
                lemma_light_seq_last(v, f);
            } else if lv.len() >= 2 {
                assert(spec_light(HtmlModel::Vec(lv), f) == spec_collapse(spec_light_seq(lv, f)));
            }
        },
        _ => {},
    }
}

/// Every node the light pass keeps is itself a fixed point of the light
/// pass, and none of them is empty.
proof fn lemma_light_seq_fixed(v: Seq<HtmlModel>, f: FilterModel)
    ensures
        forall|i: int|
            0 <= i < spec_light_seq(v, f).len() ==> (#[trigger] spec_light(
                spec_light_seq(v, f)[i],
                f,
            )) == spec_light_seq(v, f)[i] && !(spec_light_seq(v, f)[i] is Empty),
    decreases v, 1int,
{
    if v.len() > 0 {
        lemma_light_seq_fixed(v.drop_last(), f);
        lemma_light_idempotent(v.last(), f);
        let rest = spec_light_seq(v.drop_last(), f);
        let r = spec_light(v.last(), f);
        if !(r is Empty) {
            assert forall|i: int|
                0 <= i < spec_light_seq(v, f).len() implies (#[trigger] spec_light(
                spec_light_seq(v, f)[i],
                f,
            )) == spec_light_seq(v, f)[i] && !(spec_light_seq(v, f)[i] is Empty) by {
                if i < rest.len() {
                    assert(spec_light_seq(v, f)[i] == rest[i]);
                } else {
                    assert(spec_light_seq(v, f)[i] == r);
                }
            }
        }
    }
}

/// Light-filtering the kept nodes again keeps them all, unchanged.
proof fn lemma_light_seq_idempotent(v: Seq<HtmlModel>, f: FilterModel)
    ensures
        spec_light_seq(spec_light_seq(v, f), f) == spec_light_seq(v, f),
    decreases v, 2int,
{
    lemma_light_seq_fixed(v, f);
    lemma_light_seq_self(spec_light_seq(v, f), f);
}

/// A sequence of non-empty fixed points of the light pass is its own light
/// filtering.
proof fn lemma_light_seq_self(v: Seq<HtmlModel>, f: FilterModel)
    requires
        forall|i: int|
            0 <= i < v.len() ==> (#[trigger] spec_light(v[i], f)) == v[i] && !(v[i] is Empty),
    ensures
        spec_light_seq(v, f) == v,
    decreases v,
{
    if v.len() > 0 {
        assert(forall|i: int|
            0 <= i < v.drop_last().len() ==> v.drop_last()[i] == v[i]);
        lemma_light_seq_self(v.drop_last(), f);
        assert(spec_light(v.last(), f) == v[v.len() - 1]);
        assert(spec_light_seq(v, f) =~= v);
    }
}

/// The single survivor of a light pass over a sequence.
proof fn lemma_light_seq_last(v: Seq<HtmlModel>, f: FilterModel)
    requires
        spec_light_seq(v, f).len() == 1,
    ensures
        spec_light(spec_light_seq(v, f)[0], f) == spec_light_seq(v, f)[0],
        !(spec_light_seq(v, f)[0] is Empty),
    decreases v, 3int,
{
    lemma_light_seq_fixed(v, f);
}


// ------------------------------------------------------------------
// Idempotence
// ------------------------------------------------------------------
/// Whether the filter names no kind as ambient content: nothing is kept for
/// its kind alone where no match was found.
pub open spec fn spec_no_ambient(f: FilterModel) -> bool {
    !spec_comment_ambient(f) && !spec_doctype_ambient(f) && !spec_text_ambient(f)
}

/// With no ambient kind, the `found` flag changes nothing: it only governs
/// whether ambient content is kept.
proof fn lemma_found_irrelevant(m: HtmlModel, f: FilterModel)
    requires
        spec_no_ambient(f),
    ensures
        spec_heavy(m, f, true) == spec_heavy(m, f, false),
    decreases m, 0int,
{
    match m {
        HtmlModel::Tag { tag, child, .. } => {
            if !spec_tag_allowed(f, tag) {
                lemma_found_irrelevant(*child, f);
            }
        },
        HtmlModel::Vec(v) => {
            lemma_found_irrelevant_seq(v, f);
        },
        _ => {},
    }
}

/// The sequence form of [`lemma_found_irrelevant`].
proof fn lemma_found_irrelevant_seq(v: Seq<HtmlModel>, f: FilterModel)
    requires
        spec_no_ambient(f),
    ensures
        spec_heavy_seq(v, f, true) == spec_heavy_seq(v, f, false),
    decreases v, 1int,
{
    if v.len() > 0 {
        lemma_found_irrelevant_seq(v.drop_last(), f);
        lemma_found_irrelevant(v.last(), f);
    }
}

/// A tree the heavy pass leaves unchanged.
pub open spec fn spec_settled(h: HtmlModel, f: FilterModel) -> bool {
    spec_heavy(h, f, false).1 == h
}

/// A sequence of settled, non-empty trees passes the heavy pass whole.
proof fn lemma_heavy_seq_of_settled(hs: Seq<HtmlModel>, f: FilterModel)
    requires
        forall|i: int| 0 <= i < hs.len() ==> spec_settled(#[trigger] hs[i], f) && !(hs[i] is Empty),
    ensures
        pair_htmls(spec_heavy_seq(hs, f, false)) == hs,
        spec_heavy_seq(hs, f, false).len() == hs.len(),
    decreases hs,
{
    if hs.len() > 0 {
        assert(forall|i: int| 0 <= i < hs.drop_last().len() ==> hs.drop_last()[i] == hs[i]);
        lemma_heavy_seq_of_settled(hs.drop_last(), f);
        let rest = spec_heavy_seq(hs.drop_last(), f, false);
        let p = spec_heavy(hs.last(), f, false);
        assert(hs[hs.len() - 1] == hs.last());
        assert(p.1 == hs.last());
        assert(pair_htmls(rest.push(p)) =~= pair_htmls(rest).push(p.1));
        assert(pair_htmls(spec_heavy_seq(hs, f, false)) =~= hs);
    }
}

/// A sequence node holding two or more settled, non-empty trees is settled.
proof fn lemma_settled_vec(hs: Seq<HtmlModel>, f: FilterModel)
    requires
        spec_no_ambient(f),
        f.depth == 0,
        hs.len() >= 2,
        forall|i: int| 0 <= i < hs.len() ==> spec_settled(#[trigger] hs[i], f) && !(hs[i] is Empty),
    ensures
        spec_settled(HtmlModel::Vec(hs), f),
{
    lemma_heavy_seq_of_settled(hs, f);
    lemma_found_irrelevant_seq(hs, f);
    lemma_match_depth_seq_sound(hs, f, crate::filter::spec_probe_max(f.depth));
}

/// The heavy pass settles every tree it produces, for a filter with no depth
/// window and no ambient kind.
proof fn lemma_heavy_settled(m: HtmlModel, f: FilterModel, found: bool)
    requires
        spec_no_ambient(f),
        f.depth == 0,
    ensures
        spec_settled(spec_heavy(m, f, found).1, f),
    decreases m, 0int,
{
    match m {
        HtmlModel::Tag { tag, child, .. } => {
            if spec_tag_allowed(f, tag) {
                lemma_light_idempotent(*child, f);
            } else {
                lemma_heavy_settled(*child, f, found);
            }
        },
        HtmlModel::Vec(v) => {
            lemma_match_depth_seq_sound(v, f, crate::filter::spec_probe_max(f.depth));
            match spec_match_depth_seq(v, f, crate::filter::spec_probe_max(f.depth)) {
                Some(_) => {
                    lemma_heavy_seq_settled(v, f, true);
                    let rs = spec_heavy_seq(v, f, true);
                    settle_collapsed(rs, f);
                },
                None => {
                    lemma_heavy_seq_settled(v, f, found);
                    let rs = spec_heavy_seq(v, f, found);
                    if rs.len() == 1 {
                        assert(rs[0].1 == pair_htmls(rs)[0]);
                    } else if rs.len() >= 2 {
                        settle_collapsed(rs, f);
                    }
                },
            }
        },
        _ => {},
    }
}

/// The collapse of settled, non-empty heavy results is settled.
proof fn settle_collapsed(rs: Seq<(crate::filter::DepthModel, HtmlModel)>, f: FilterModel)
    requires
        spec_no_ambient(f),
        f.depth == 0,
        forall|i: int|
            0 <= i < rs.len() ==> spec_settled(#[trigger] pair_htmls(rs)[i], f) && !(pair_htmls(
                rs,
            )[i] is Empty),
        rs.len() == pair_htmls(rs).len(),
    ensures
        spec_settled(spec_collapse(pair_htmls(rs)), f),
{
    let hs = pair_htmls(rs);
    if hs.len() == 0 {
    } else if hs.len() == 1 {
        assert(spec_collapse(hs) == hs[0]);
    } else {
        lemma_settled_vec(hs, f);
    }
}

/// Every kept heavy result of a sequence is settled and non-empty.
proof fn lemma_heavy_seq_settled(v: Seq<HtmlModel>, f: FilterModel, found: bool)
    requires
        spec_no_ambient(f),
        f.depth == 0,
    ensures
        forall|i: int|
            0 <= i < spec_heavy_seq(v, f, found).len() ==> spec_settled(
                #[trigger] pair_htmls(spec_heavy_seq(v, f, found))[i],
                f,
            ) && !(pair_htmls(spec_heavy_seq(v, f, found))[i] is Empty),
        spec_heavy_seq(v, f, found).len() == pair_htmls(spec_heavy_seq(v, f, found)).len(),
    decreases v, 1int,
{
    if v.len() > 0 {
        lemma_heavy_seq_settled(v.drop_last(), f, found);
        lemma_heavy_settled(v.last(), f, found);
        let rest = spec_heavy_seq(v.drop_last(), f, found);
        let p = spec_heavy(v.last(), f, found);
        if !(p.1 is Empty) {
            assert(pair_htmls(rest.push(p)) =~= pair_htmls(rest).push(p.1));
            assert forall|i: int|
                0 <= i < spec_heavy_seq(v, f, found).len() implies spec_settled(
                #[trigger] pair_htmls(spec_heavy_seq(v, f, found))[i],
                f,
            ) && !(pair_htmls(spec_heavy_seq(v, f, found))[i] is Empty) by {
                if i < rest.len() {
                    assert(pair_htmls(spec_heavy_seq(v, f, found))[i] == pair_htmls(rest)[i]);
                } else {
                    assert(pair_htmls(spec_heavy_seq(v, f, found))[i] == p.1);
                }
            }
        }
    }
}

/// Idempotence of filtering: filtering a second time with the same rules
/// changes nothing, for a filter with no depth window (`depth` 0) and no
/// kind set as ambient content.
///
/// With a positive depth, or with a kind toggle explicitly allowing ambient
/// content, a second run can see a match shallower than the first run did
/// (the first run strips the ancestors above the window) and then drops
/// ambient neighbours it had kept, so the law is stated without those inputs.
pub proof fn lemma_filter_idempotent(m: HtmlModel, f: FilterModel)
    requires
        f.depth == 0,
        spec_no_ambient(f),
    ensures
        spec_filter(spec_filter(m, f), f) == spec_filter(m, f),
{
    lemma_heavy_settled(m, f, false);
}

} // verus!
