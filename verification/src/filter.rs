//! The selection engine: filtering a tree with a [`Filter`].
//!
//! Two passes work over any matched region. The heavy pass walks the tree
//! deciding, node by node, whether it matches, is kept as context for a match
//! below it, or is dropped; the light pass then keeps everything inside a
//! confirmed match, still eliding content whose kind toggle is off and tags
//! explicitly dismissed. An ancestor of a match is kept in full when it
//! stands at most [`Filter::depth`] tags above it, and among nested matches
//! the shallowest one anchors the kept region.

pub mod element;
pub mod node_type;
pub mod laws;
pub mod types;

use vstd::prelude::*;

use crate::filter::types::{
    spec_comment_ambient, spec_doctype_ambient, spec_tag_allowed, spec_tag_blacklisted,
    spec_tag_explicitly_allowed, spec_text_ambient, Filter, FilterModel,
};
use crate::spec_unwrap_or;
use crate::types::html::{htmls_view, lemma_htmls_view, Html, HtmlModel};

verus! {

broadcast use vstd::std_specs::vec::group_vec_axioms;

// ------------------------------------------------------------------
// Match status
// ------------------------------------------------------------------
/// How far below a node the nearest match was found.
#[derive(Clone, Copy)]
pub enum DepthSuccess {
    /// A match lies `d` tags below, and wants more surrounding depth.
    Found(usize),
    /// No match here.
    NoMatch,
    /// A match was found and its depth window is already complete.
    Success,
}

/// Model of a [`DepthSuccess`].
pub enum DepthModel {
    Found(int),
    NoMatch,
    Success,
}

impl View for DepthSuccess {
    type V = DepthModel;

    open spec fn view(&self) -> DepthModel {
        match self {
            DepthSuccess::Found(d) => DepthModel::Found(*d as int),
            DepthSuccess::NoMatch => DepthModel::NoMatch,
            DepthSuccess::Success => DepthModel::Success,
        }
    }
}

/// The order on statuses: a shallower find comes first, every find comes
/// before a complete window, and a complete window before no match.
pub open spec fn spec_depth_lt(a: DepthModel, b: DepthModel) -> bool {
    match (a, b) {
        (DepthModel::Found(x), DepthModel::Found(y)) => x < y,
        (DepthModel::Found(_), _) => true,
        (DepthModel::Success, DepthModel::NoMatch) => true,
        _ => false,
    }
}

/// The smaller of two statuses, the left one on ties.
pub open spec fn spec_dmin(a: DepthModel, b: DepthModel) -> DepthModel {
    if spec_depth_lt(b, a) {
        b
    } else {
        a
    }
}

/// A found depth one deeper, saturating at the largest representable depth;
/// the other statuses are unchanged.
pub open spec fn spec_incr(s: DepthModel) -> DepthModel {
    match s {
        DepthModel::Found(d) => if d >= usize::MAX as int {
            DepthModel::Found(d)
        } else {
            DepthModel::Found(d + 1)
        },
        other => other,
    }
}

impl DepthSuccess {
    /// One deeper, saturating; see [`spec_incr`].
    pub fn incr(self) -> (r: DepthSuccess)
        ensures
            r@ == spec_incr(self@),
    {
        match self {
            DepthSuccess::Found(d) => {
                if d == usize::MAX {
                    DepthSuccess::Found(d)
                } else {
                    DepthSuccess::Found(d + 1)
                }
            },
            other => other,
        }
    }
}

/// The status and the rebuilt subtree one heavy-pass step yields.
pub struct FilterSuccess {
    /// The match status.
    pub depth: DepthSuccess,
    /// The kept part of the subtree; [`Html::Empty`] when nothing is kept.
    pub html: Html,
}

impl FilterSuccess {
    /// The result for a node that is itself a match.
    pub fn make_found(html: Html) -> (r: FilterSuccess)
        ensures
            r.depth@ == DepthModel::Found(0),
            r.html == html,
    {
        FilterSuccess { depth: DepthSuccess::Found(0), html }
    }

    /// The result for a node kept only as possible surroundings.
    pub fn make_none(html: Html) -> (r: FilterSuccess)
        ensures
            r.depth@ == DepthModel::NoMatch,
            r.html == html,
    {
        FilterSuccess { depth: DepthSuccess::NoMatch, html }
    }

    /// The same subtree with its found depth one deeper; see [`spec_incr`].
    pub fn incr(self) -> (r: FilterSuccess)
        ensures
            r.depth@ == spec_incr(self.depth@),
            r.html == self.html,
    {
        FilterSuccess { depth: self.depth.incr(), html: self.html }
    }
}

// ------------------------------------------------------------------
// The probe: distance to the nearest explicit match
// ------------------------------------------------------------------
/// The smaller of two optional depths, where absence is largest.
pub open spec fn spec_opt_min(a: Option<int>, b: Option<int>) -> Option<int> {
    match (a, b) {
        (None, other) => other,
        (other, None) => other,
        (Some(x), Some(y)) => if y < x {
            Some(y)
        } else {
            Some(x)
        },
    }
}

/// The distance, counted in tags, from this node down to the nearest
/// explicitly matching tag, looking at most `max` tags deep; `None` when no
/// match is that near. Sequence nodes are transparent: they add no distance.
pub open spec fn spec_match_depth(m: HtmlModel, f: FilterModel, max: int) -> Option<int>
    decreases m,
{
    match m {
        HtmlModel::Tag { tag, child, .. } => if spec_tag_explicitly_allowed(f, tag) {
            Some(0)
        } else if max <= 0 {
            None
        } else {
            match spec_match_depth(*child, f, max - 1) {
                None => None,
                Some(d) => Some(d + 1),
            }
        },
        HtmlModel::Vec(v) => if max <= 0 {
            None
        } else {
            spec_match_depth_seq(v, f, max)
        },
        _ => None,
    }
}

/// The smallest match distance over a sequence of siblings.
pub open spec fn spec_match_depth_seq(v: Seq<HtmlModel>, f: FilterModel, max: int) -> Option<int>
    decreases v,
{
    if v.len() == 0 {
        None
    } else {
        spec_opt_min(spec_match_depth_seq(v.drop_last(), f, max), spec_match_depth(v.last(), f, max))
    }
}

// ------------------------------------------------------------------
// The light pass
// ------------------------------------------------------------------
/// A sequence collapsed: no node for none, the node itself for one, and the
/// sequence for two or more.
pub open spec fn spec_collapse(v: Seq<HtmlModel>) -> HtmlModel {
    if v.len() == 0 {
        HtmlModel::Empty
    } else if v.len() == 1 {
        v[0]
    } else {
        HtmlModel::Vec(v)
    }
}

/// The light pass: inside a confirmed match everything is kept, except
/// content whose kind toggle is off and tags explicitly dismissed.
pub open spec fn spec_light(m: HtmlModel, f: FilterModel) -> HtmlModel
    decreases m,
{
    match m {
        HtmlModel::Empty => HtmlModel::Empty,
        HtmlModel::Text(_) => if spec_unwrap_or(f.types.text, true) {
            m
        } else {
            HtmlModel::Empty
        },
        HtmlModel::Comment(_) => if spec_unwrap_or(f.types.comment, true) {
            m
        } else {
            HtmlModel::Empty
        },
        HtmlModel::Doctype { .. } => if spec_unwrap_or(f.types.doctype, true) {
            m
        } else {
            HtmlModel::Empty
        },
        HtmlModel::Tag { tag, full, child } => if spec_tag_blacklisted(f, tag) {
            HtmlModel::Empty
        } else {
            HtmlModel::Tag { tag, full, child: Box::new(spec_light(*child, f)) }
        },
        HtmlModel::Vec(v) => spec_collapse(spec_light_seq(v, f)),
    }
}

/// The light pass over siblings, the elided ones dropped.
pub open spec fn spec_light_seq(v: Seq<HtmlModel>, f: FilterModel) -> Seq<HtmlModel>
    decreases v,
{
    if v.len() == 0 {
        Seq::empty()
    } else {
        let rest = spec_light_seq(v.drop_last(), f);
        let r = spec_light(v.last(), f);
        if r is Empty {
            rest
        } else {
            rest.push(r)
        }
    }
}

// ------------------------------------------------------------------
// The heavy pass
// ------------------------------------------------------------------
/// The probe bound: one tag past the configured window, within what a depth
/// can count to.
pub open spec fn spec_probe_max(depth: int) -> int {
    if depth >= usize::MAX as int {
        depth
    } else {
        depth + 1
    }
}

/// The heavy pass on one node. It returns the match status and the kept part
/// of the subtree.
///
/// A matching tag is kept whole, light-filtered. A non-matching tag passes
/// the question to its content: a find below grows by one and keeps the tag
/// as context while it is within the window, and is sealed into a complete
/// window at the boundary, dropping the tag. Texts, comments and doctypes
/// carry no match; they are kept as ambient content only where nothing was
/// found yet (`found` is false) and their kind was explicitly allowed. For a
/// sequence, a probe first looks for a match near enough; if the whole
/// sequence is already inside the window it is kept whole (light-filtered),
/// if a match sits exactly at the boundary each sibling is re-filtered as
/// already found, and otherwise the siblings are filtered on their own and
/// the statuses combine by their minimum.
pub open spec fn spec_heavy(m: HtmlModel, f: FilterModel, found: bool) -> (DepthModel, HtmlModel)
    decreases m,
{
    match m {
        HtmlModel::Empty => (DepthModel::NoMatch, HtmlModel::Empty),
        HtmlModel::Text(_) => if !found && spec_text_ambient(f) {
            (DepthModel::NoMatch, m)
        } else {
            (DepthModel::NoMatch, HtmlModel::Empty)
        },
        HtmlModel::Comment(_) => if !found && spec_comment_ambient(f) {
            (DepthModel::NoMatch, m)
        } else {
            (DepthModel::NoMatch, HtmlModel::Empty)
        },
        HtmlModel::Doctype { .. } => if !found && spec_doctype_ambient(f) {
            (DepthModel::NoMatch, m)
        } else {
            (DepthModel::NoMatch, HtmlModel::Empty)
        },
        HtmlModel::Tag { tag, full, child } => if spec_tag_allowed(f, tag) {
            (
                DepthModel::Found(0),
                HtmlModel::Tag { tag, full, child: Box::new(spec_light(*child, f)) },
            )
        } else if f.depth == 0 {
            let (s, h) = spec_heavy(*child, f, found);
            (spec_incr(s), h)
        } else {
            let (s, h) = spec_heavy(*child, f, found);
            match s {
                DepthModel::NoMatch => (DepthModel::NoMatch, HtmlModel::Empty),
                DepthModel::Success => (DepthModel::Success, h),
                DepthModel::Found(d) => if d < f.depth {
                    (DepthModel::Found(d + 1), HtmlModel::Tag { tag, full, child: Box::new(h) })
                } else {
                    (DepthModel::Success, h)
                },
            }
        },
        HtmlModel::Vec(v) => {
            match spec_match_depth_seq(v, f, spec_probe_max(f.depth)) {
                Some(d) => if d < f.depth {
                    (DepthModel::Found(d), spec_collapse(spec_light_seq(v, f)))
                } else {
                    (DepthModel::Success, spec_collapse(pair_htmls(spec_heavy_seq(v, f, true))))
                },
                None => {
                    let rs = spec_heavy_seq(v, f, found);
                    if rs.len() == 0 {
                        (DepthModel::NoMatch, HtmlModel::Empty)
                    } else if rs.len() == 1 {
                        rs[0]
                    } else {
                        (spec_min_status(rs), HtmlModel::Vec(pair_htmls(rs)))
                    }
                },
            }
        },
    }
}

/// The heavy pass over siblings, keeping the results with something left.
pub open spec fn spec_heavy_seq(v: Seq<HtmlModel>, f: FilterModel, found: bool) -> Seq<
    (DepthModel, HtmlModel),
>
    decreases v,
{
    if v.len() == 0 {
        Seq::empty()
    } else {
        let rest = spec_heavy_seq(v.drop_last(), f, found);
        let p = spec_heavy(v.last(), f, found);
        if p.1 is Empty {
            rest
        } else {
            rest.push(p)
        }
    }
}

/// The kept subtrees of a sequence of heavy-pass results.
pub open spec fn pair_htmls(rs: Seq<(DepthModel, HtmlModel)>) -> Seq<HtmlModel> {
    rs.map_values(|p: (DepthModel, HtmlModel)| p.1)
}

/// The smallest status among the results.
pub open spec fn spec_min_status(rs: Seq<(DepthModel, HtmlModel)>) -> DepthModel
    decreases rs,
{
    if rs.len() == 0 {
        DepthModel::NoMatch
    } else {
        spec_dmin(spec_min_status(rs.drop_last()), rs.last().0)
    }
}

/// What filtering a tree yields.
pub open spec fn spec_filter(m: HtmlModel, f: FilterModel) -> HtmlModel {
    spec_heavy(m, f, false).1
}

/// The first kept node, in depth-first left-to-right order.
pub open spec fn spec_into_first(m: HtmlModel) -> HtmlModel
    decreases m,
{
    match m {
        HtmlModel::Vec(v) => spec_first_nonempty(v),
        _ => m,
    }
}

/// The first node of the sequence whose own first kept node exists.
pub open spec fn spec_first_nonempty(v: Seq<HtmlModel>) -> HtmlModel
    decreases v,
{
    if v.len() == 0 {
        HtmlModel::Empty
    } else {
        let r = spec_into_first(v.first());
        if r is Empty {
            spec_first_nonempty(v.drop_first())
        } else {
            r
        }
    }
}

/// What finding in a tree yields: the first node its filtering kept, or the
/// empty tree when the filter matched nothing.
pub open spec fn spec_find(m: HtmlModel, f: FilterModel) -> HtmlModel {
    spec_into_first(spec_filter(m, f))
}

// ------------------------------------------------------------------
// Executable engine
// ------------------------------------------------------------------
/// Collapses a freshly built sequence of kept nodes.
fn collapse(v: Vec<Html>) -> (r: Html)
    ensures
        r@ == spec_collapse(htmls_view(v@)),
{
    let mut v = v;
    proof {
        lemma_htmls_view(v@);
    }
    if v.len() == 0 {
        Html::Empty
    } else if v.len() == 1 {
        match v.pop() {
            Some(h) => h,
            None => Html::Empty,
        }
    } else {
        Html::Vec(v)
    }
}

/// The smaller of two optional depths.
fn opt_min(a: Option<usize>, b: Option<usize>) -> (r: Option<usize>)
    ensures
        opt_usize_view(r) == spec_opt_min(opt_usize_view(a), opt_usize_view(b)),
{
    match (a, b) {
        (None, other) => other,
        (other, None) => other,
        (Some(x), Some(y)) => if y < x {
            Some(y)
        } else {
            Some(x)
        },
    }
}

/// View of an optional depth.
pub open spec fn opt_usize_view(o: Option<usize>) -> Option<int> {
    match o {
        None => None,
        Some(d) => Some(d as int),
    }
}

impl Html {
    /// The distance down to the nearest explicitly matching tag, looking at
    /// most `max_depth` tags deep; see [`spec_match_depth`].
    #[verifier::loop_isolation(false)]
    pub fn check_depth(&self, max_depth: usize, filter: &Filter) -> (r: Option<usize>)
        ensures
            opt_usize_view(r) == spec_match_depth(self@, filter@, max_depth as int),
            match r {
                Some(d) => d <= max_depth,
                None => true,
            },
        decreases self,
    {
        match self {
            Html::Tag { tag, child, .. } => {
                if filter.tag_explicitly_allowed(tag) {
                    Some(0)
                } else if max_depth == 0 {
                    None
                } else {
                    match child.check_depth(max_depth - 1, filter) {
                        None => None,
                        Some(d) => Some(d + 1),
                    }
                }
            },
            Html::Vec(v) => {
                if max_depth == 0 {
                    return None;
                }
                let n = v.len();
                let mut i: usize = 0;
                let mut acc: Option<usize> = None;
                proof {
                    lemma_htmls_view(v@);
                    assert(spec_match_depth_seq(
                        htmls_view(v@).take(0),
                        filter@,
                        max_depth as int,
                    ) is None);
                }
                while i < n
                    invariant
                        i <= n,
                        opt_usize_view(acc) == spec_match_depth_seq(
                            htmls_view(v@).take(i as int),
                            filter@,
                            max_depth as int,
                        ),
                        match acc {
                            Some(d) => d <= max_depth,
                            None => true,
                        },
                    decreases n - i,
                {
                    let c = v[i].check_depth(max_depth, filter);
                    proof {
                        let hv = htmls_view(v@);
                        assert(hv.take(i as int + 1).drop_last() =~= hv.take(i as int));
                        assert(hv.take(i as int + 1).last() == hv[i as int]);
                    }
                    acc = opt_min(acc, c);
                    i = i + 1;
                }
                proof {
                    assert(htmls_view(v@).take(n as int) =~= htmls_view(v@));
                }
                acc
            },
            _ => None,
        }
    }

    /// Filters the tree, producing a new one; the original is given up.
    ///
    /// See [`Filter`] for how to build the rules and [`spec_heavy`] for what
    /// is kept.
    pub fn filter(self, filter: &Filter) -> (r: Html)
        ensures
            r@ == spec_filter(self@, filter@),
    {
        self.to_filtered(filter)
    }

    /// Filters the tree without consuming it; the result equals what
    /// [`Html::filter`] gives on the same tree.
    pub fn to_filtered(&self, filter: &Filter) -> (r: Html)
        ensures
            r@ == spec_filter(self@, filter@),
    {
        filter_aux(self, filter, false).html
    }

    /// Finds the first node the filter keeps; the original is given up.
    ///
    /// A filter that matches nothing yields the empty tree, not an error.
    pub fn find(self, filter: &Filter) -> (r: Html)
        ensures
            r@ == spec_find(self@, filter@),
    {
        self.to_found(filter)
    }

    /// Finds the first kept node without consuming the tree; the result
    /// equals what [`Html::find`] gives on the same tree.
    pub fn to_found(&self, filter: &Filter) -> (r: Html)
        ensures
            r@ == spec_find(self@, filter@),
    {
        self.to_filtered(filter).into_first()
    }

    /// The first node of the tree, in depth-first left-to-right order.
    #[verifier::loop_isolation(false)]
    fn into_first(&self) -> (r: Html)
        ensures
            r@ == spec_into_first(self@),
        decreases self,
    {
        match self {
            Html::Vec(v) => {
                let n = v.len();
                let mut i: usize = 0;
                proof {
                    lemma_htmls_view(v@);
                    assert(htmls_view(v@).skip(0) =~= htmls_view(v@));
                }
                while i < n
                    invariant
                        i <= n,
                        spec_first_nonempty(htmls_view(v@)) == spec_first_nonempty(
                            htmls_view(v@).skip(i as int),
                        ),
                    decreases n - i,
                {
                    proof {
                        let hv = htmls_view(v@);
                        assert(hv.skip(i as int).first() == hv[i as int]);
                        assert(hv.skip(i as int).drop_first() =~= hv.skip(i as int + 1));
                    }
                    let r = v[i].into_first();
                    if !r.is_empty() {
                        return r;
                    }
                    i = i + 1;
                }
                proof {
                    assert(htmls_view(v@).skip(n as int) =~= Seq::<HtmlModel>::empty());
                }
                Html::Empty
            },
            other => other.duplicate(),
        }
    }
}

/// The light pass; see [`spec_light`].
#[verifier::loop_isolation(false)]
fn filter_light(h: &Html, filter: &Filter) -> (r: Html)
    ensures
        r@ == spec_light(h@, filter@),
    decreases h,
{
    match h {
        Html::Empty => Html::Empty,
        Html::Text(_) => {
            if filter.text_allowed() {
                h.duplicate()
            } else {
                Html::Empty
            }
        },
        Html::Comment(_) => {
            if filter.comment_allowed() {
                h.duplicate()
            } else {
                Html::Empty
            }
        },
        Html::Doctype { .. } => {
            if filter.doctype_allowed() {
                h.duplicate()
            } else {
                Html::Empty
            }
        },
        Html::Tag { tag, full, child } => {
            if filter.tag_blacklisted(tag) {
                Html::Empty
            } else {
                Html::Tag {
                    tag: tag.duplicate(),
                    full: *full,
                    child: Box::new(filter_light(child, filter)),
                }
            }
        },
        Html::Vec(v) => {
            let n = v.len();
            let mut out: Vec<Html> = Vec::new();
            let mut i: usize = 0;
            proof {
                lemma_htmls_view(v@);
                assert(spec_light_seq(htmls_view(v@).take(0), filter@) =~= htmls_view(out@));
            }
            while i < n
                invariant
                    i <= n,
                    htmls_view(out@) == spec_light_seq(htmls_view(v@).take(i as int), filter@),
                decreases n - i,
            {
                let c = filter_light(&v[i], filter);
                proof {
                    let hv = htmls_view(v@);
                    assert(hv.take(i as int + 1).drop_last() =~= hv.take(i as int));
                    assert(hv.take(i as int + 1).last() == hv[i as int]);
                }
                if !c.is_empty() {
                    let ghost out0 = out@;
                    out.push(c);
                    proof {
                        lemma_htmls_view(out0);
                        lemma_htmls_view(out@);
                        assert(htmls_view(out@) =~= htmls_view(out0).push(
                            spec_light(htmls_view(v@)[i as int], filter@),
                        ));
                    }
                }
                i = i + 1;
            }
            proof {
                assert(htmls_view(v@).take(n as int) =~= htmls_view(v@));
            }
            collapse(out)
        },
    }
}

/// The heavy pass; see [`spec_heavy`].
#[verifier::loop_isolation(false)]
fn filter_aux(h: &Html, filter: &Filter, found: bool) -> (r: FilterSuccess)
    ensures
        (r.depth@, r.html@) == spec_heavy(h@, filter@, found),
    decreases h, 0int,
{
    match h {
        Html::Empty => FilterSuccess::make_none(Html::Empty),
        Html::Text(_) => {
            if !found && filter.text_ambient() {
                FilterSuccess::make_none(h.duplicate())
            } else {
                FilterSuccess::make_none(Html::Empty)
            }
        },
        Html::Comment(_) => {
            if !found && filter.comment_ambient() {
                FilterSuccess::make_none(h.duplicate())
            } else {
                FilterSuccess::make_none(Html::Empty)
            }
        },
        Html::Doctype { .. } => {
            if !found && filter.doctype_ambient() {
                FilterSuccess::make_none(h.duplicate())
            } else {
                FilterSuccess::make_none(Html::Empty)
            }
        },
        Html::Tag { tag, full, child } => filter_aux_tag(tag, *full, child, filter, found),
        Html::Vec(v) => filter_aux_vec(v, filter, found),
    }
}

/// The heavy pass on a tag node.
fn filter_aux_tag(
    tag: &crate::types::tag::Tag,
    full: crate::types::tag::TagType,
    child: &Html,
    filter: &Filter,
    found: bool,
) -> (r: FilterSuccess)
    ensures
        (r.depth@, r.html@) == spec_heavy(
            HtmlModel::Tag { tag: tag@, full, child: Box::new(child@) },
            filter@,
            found,
        ),
    decreases child, 1int,
{
    if filter.tag_allowed(tag) {
        FilterSuccess::make_found(
            Html::Tag {
                tag: tag.duplicate(),
                full,
                child: Box::new(filter_light(child, filter)),
            },
        )
    } else if filter.as_depth() == 0 {
        filter_aux(child, filter, found).incr()
    } else {
        let rec = filter_aux(child, filter, found);
        match rec.depth {
            DepthSuccess::NoMatch => FilterSuccess::make_none(Html::Empty),
            DepthSuccess::Success => FilterSuccess { depth: DepthSuccess::Success, html: rec.html },
            DepthSuccess::Found(d) => {
                if d < filter.as_depth() {
                    FilterSuccess {
                        depth: DepthSuccess::Found(d + 1),
                        html: Html::Tag {
                            tag: tag.duplicate(),
                            full,
                            child: Box::new(rec.html),
                        },
                    }
                } else {
                    FilterSuccess { depth: DepthSuccess::Success, html: rec.html }
                }
            },
        }
    }
}

/// The heavy pass on a sequence node.
#[verifier::loop_isolation(false)]
fn filter_aux_vec(v: &Vec<Html>, filter: &Filter, found: bool) -> (r: FilterSuccess)
    ensures
        (r.depth@, r.html@) == spec_heavy(HtmlModel::Vec(htmls_view(v@)), filter@, found),
    decreases v, 1int,
{
    let depth = filter.as_depth();
    let probe_max = if depth == usize::MAX {
        depth
    } else {
        depth + 1
    };
    let n = v.len();
    proof {
        lemma_htmls_view(v@);
    }

    // The probe: is a match reachable within the window plus one tag?
    let mut i: usize = 0;
    let mut probe: Option<usize> = None;
    proof {
        assert(spec_match_depth_seq(
            htmls_view(v@).take(0),
            filter@,
            probe_max as int,
        ) is None);
    }
    while i < n
        invariant
            i <= n,
            opt_usize_view(probe) == spec_match_depth_seq(
                htmls_view(v@).take(i as int),
                filter@,
                probe_max as int,
            ),
        decreases n - i,
    {
        proof {
            let hv = htmls_view(v@);
            assert(hv.take(i as int + 1).drop_last() =~= hv.take(i as int));
            assert(hv.take(i as int + 1).last() == hv[i as int]);
        }
        let c = v[i].check_depth(probe_max, filter);
        probe = opt_min(probe, c);
        i = i + 1;
    }
    proof {
        assert(htmls_view(v@).take(n as int) =~= htmls_view(v@));
    }

    match probe {
        Some(d) if d < depth => {
            // The whole sequence already stands inside the window.
            let mut out: Vec<Html> = Vec::new();
            let mut k: usize = 0;
            proof {
                assert(spec_light_seq(htmls_view(v@).take(0), filter@) =~= htmls_view(out@));
            }
            while k < n
                invariant
                    k <= n,
                    htmls_view(out@) == spec_light_seq(htmls_view(v@).take(k as int), filter@),
                decreases n - k,
            {
                let c = filter_light(&v[k], filter);
                proof {
                    let hv = htmls_view(v@);
                    assert(hv.take(k as int + 1).drop_last() =~= hv.take(k as int));
                    assert(hv.take(k as int + 1).last() == hv[k as int]);
                }
                if !c.is_empty() {
                    let ghost out0 = out@;
                    out.push(c);
                    proof {
                        lemma_htmls_view(out0);
                        lemma_htmls_view(out@);
                        assert(htmls_view(out@) =~= htmls_view(out0).push(
                            spec_light(htmls_view(v@)[k as int], filter@),
                        ));
                    }
                }
                k = k + 1;
            }
            proof {
                assert(htmls_view(v@).take(n as int) =~= htmls_view(v@));
            }
            FilterSuccess { depth: DepthSuccess::Found(d), html: collapse(out) }
        },
        Some(_) => {
            // A match sits exactly at the boundary: every sibling is
            // re-filtered as already found.
            let (_, kept) = heavy_children(v, filter, true);
            FilterSuccess { depth: DepthSuccess::Success, html: collapse(kept) }
        },
        None => {
            let (status, mut kept) = heavy_children(v, filter, found);
            proof {
                lemma_htmls_view(kept@);
            }
            if kept.len() == 0 {
                FilterSuccess::make_none(Html::Empty)
            } else if kept.len() == 1 {
                proof {
                    let rs = spec_heavy_seq(htmls_view(v@), filter@, found);
                    assert(rs.len() == 1);
                    assert(rs.drop_last() =~= Seq::<(DepthModel, HtmlModel)>::empty());
                    assert(spec_min_status(Seq::<(DepthModel, HtmlModel)>::empty())
                        == DepthModel::NoMatch);
                    assert(rs.last() == rs[0]);
                    assert(spec_min_status(rs) == spec_dmin(DepthModel::NoMatch, rs[0].0));
                    assert(spec_dmin(DepthModel::NoMatch, rs[0].0) == rs[0].0);
                    assert(pair_htmls(rs)[0] == rs[0].1);
                }
                match kept.pop() {
                    Some(single) => FilterSuccess { depth: status, html: single },
                    None => FilterSuccess::make_none(Html::Empty),
                }
            } else {
                FilterSuccess { depth: status, html: Html::Vec(kept) }
            }
        },
    }
}

/// The heavy pass over the siblings of a sequence: the smallest status among
/// the kept results, and the kept subtrees in order.
#[verifier::loop_isolation(false)]
fn heavy_children(v: &Vec<Html>, filter: &Filter, found: bool) -> (r: (DepthSuccess, Vec<Html>))
    ensures
        r.0@ == spec_min_status(spec_heavy_seq(htmls_view(v@), filter@, found)),
        htmls_view(r.1@) == pair_htmls(spec_heavy_seq(htmls_view(v@), filter@, found)),
        r.1@.len() == spec_heavy_seq(htmls_view(v@), filter@, found).len(),
    decreases v, 0int,
{
    let n = v.len();
    let mut kept: Vec<Html> = Vec::new();
    let mut status = DepthSuccess::NoMatch;
    let mut i: usize = 0;
    proof {
        lemma_htmls_view(v@);
        assert(spec_heavy_seq(htmls_view(v@).take(0), filter@, found) =~= Seq::<
            (DepthModel, HtmlModel),
        >::empty());
        assert(pair_htmls(Seq::<(DepthModel, HtmlModel)>::empty()) =~= htmls_view(kept@));
    }
    while i < n
        invariant
            i <= n,
            status@ == spec_min_status(spec_heavy_seq(htmls_view(v@).take(i as int), filter@, found)),
            htmls_view(kept@) == pair_htmls(
                spec_heavy_seq(htmls_view(v@).take(i as int), filter@, found),
            ),
            kept@.len() == spec_heavy_seq(htmls_view(v@).take(i as int), filter@, found).len(),
        decreases n - i,
    {
        proof {
            let hv = htmls_view(v@);
            assert(hv.take(i as int + 1).drop_last() =~= hv.take(i as int));
            assert(hv.take(i as int + 1).last() == hv[i as int]);
        }
        let rec = filter_aux(&v[i], filter, found);
        if !rec.html.is_empty() {
            let ghost kept0 = kept@;
            let ghost rs0 = spec_heavy_seq(htmls_view(v@).take(i as int), filter@, found);
            let ghost p = spec_heavy(htmls_view(v@)[i as int], filter@, found);
            status = dmin(status, rec.depth);
            kept.push(rec.html);
            proof {
                lemma_htmls_view(kept0);
                lemma_htmls_view(kept@);
                assert((rs0.push(p)).drop_last() =~= rs0);
                assert((rs0.push(p)).last() == p);
                assert(htmls_view(kept@) =~= pair_htmls(rs0).push(p.1));
                assert(pair_htmls(rs0.push(p)) =~= pair_htmls(rs0).push(p.1));
            }
        }
        i = i + 1;
    }
    proof {
        assert(htmls_view(v@).take(n as int) =~= htmls_view(v@));
    }
    (status, kept)
}

/// The smaller of two statuses, the left one on ties.
fn dmin(a: DepthSuccess, b: DepthSuccess) -> (r: DepthSuccess)
    ensures
        r@ == spec_dmin(a@, b@),
{
    let b_lt = match (&b, &a) {
        (DepthSuccess::Found(x), DepthSuccess::Found(y)) => *x < *y,
        (DepthSuccess::Found(_), _) => true,
        (DepthSuccess::Success, DepthSuccess::NoMatch) => true,
        _ => false,
    };
    if b_lt {
        b
    } else {
        a
    }
}

} // verus!
