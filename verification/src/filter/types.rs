//! The filter: the rules a selection is made with.
//!
//! A filter combines tag-name allow/deny rules, attribute allow/deny rules,
//! per-kind toggles for comments, doctypes and texts, and the ancestor depth
//! up to which a match keeps its surroundings.

use vstd::prelude::*;

use crate::filter::element::{
    spec_and, spec_bl_hit, spec_bwl_check, spec_is_allowed_or, spec_kv_lookup, spec_vah_check,
    BlackWhiteList, BwlModel, ElementState, ValueAssociateHash, VahModel,
};
use crate::filter::node_type::NodeTypeFilter;
use crate::spec_unwrap_or;
use crate::text::lit_string;
use crate::types::tag::{Tag, TagModel};

verus! {

/// Model of a [`Filter`].
pub struct FilterModel {
    pub attrs: VahModel,
    pub depth: int,
    pub tags: BwlModel,
    pub types: NodeTypeFilter,
}

/// Whether the tag is kept by the heavy pass: the combined tag and attribute
/// verdict, where silence counts as an allow exactly when no tag or attribute
/// rule exists at all.
pub open spec fn spec_tag_allowed(f: FilterModel, t: TagModel) -> bool {
    let is_empty = f.attrs.whitelist.len() == 0 && f.attrs.blacklist.len() == 0
        && f.tags.whitelist_empty;
    spec_is_allowed_or(
        spec_and(spec_bwl_check(f.tags, t.name), spec_vah_check(f.attrs, t.attrs)),
        is_empty,
    )
}

/// Whether the tag is an explicit match: the combined verdict, with silence
/// counting as a deny. Selection requires an explicit target.
pub open spec fn spec_tag_explicitly_allowed(f: FilterModel, t: TagModel) -> bool {
    spec_is_allowed_or(
        spec_and(spec_bwl_check(f.tags, t.name), spec_vah_check(f.attrs, t.attrs)),
        false,
    )
}

/// Whether the tag is explicitly dismissed: a deny rule stored for its name,
/// or a matching attribute deny rule. Such tags are elided even inside an
/// otherwise kept region.
pub open spec fn spec_tag_blacklisted(f: FilterModel, t: TagModel) -> bool {
    spec_kv_lookup(f.tags.items, t.name) == Some(false) || spec_bl_hit(f.attrs.blacklist, t.attrs)
}

/// Whether comments count as ambient content: kept where nothing was found,
/// only when explicitly allowed.
pub open spec fn spec_comment_ambient(f: FilterModel) -> bool {
    f.types.comment == Some(true)
}

/// Whether doctypes count as ambient content.
pub open spec fn spec_doctype_ambient(f: FilterModel) -> bool {
    f.types.doctype == Some(true)
}

/// Whether texts count as ambient content.
pub open spec fn spec_text_ambient(f: FilterModel) -> bool {
    f.types.text == Some(true)
}

/// Rules to select the wanted nodes of a tree.
///
/// A filter can remove node kinds ([`Filter::comment`], [`Filter::doctype`],
/// [`Filter::text`]), select tags by name ([`Filter::tag_name`]) or by
/// attribute ([`Filter::attribute_name`], [`Filter::attribute_value`]), and
/// keep the ancestors of a match up to a chosen distance ([`Filter::depth`]).
pub struct Filter {
    /// The attribute rules.
    pub attrs: ValueAssociateHash,
    /// How many ancestors of a match are kept with it.
    pub depth: usize,
    /// The tag-name rules.
    pub tags: BlackWhiteList,
    /// The per-kind toggles.
    pub types: NodeTypeFilter,
}

impl View for Filter {
    type V = FilterModel;

    open spec fn view(&self) -> FilterModel {
        FilterModel {
            attrs: self.attrs@,
            depth: self.depth as int,
            tags: self.tags@,
            types: self.types,
        }
    }
}

impl Filter {
    /// Creates a filter with no rules.
    ///
    /// No node is explicitly wanted, so filtering with it keeps content only
    /// as far as the kind toggles allow.
    pub fn new() -> (r: Filter)
        ensures
            r@ == (FilterModel {
                attrs: VahModel { blacklist: Seq::empty(), whitelist: Seq::empty() },
                depth: 0,
                tags: BwlModel { default: true, items: Seq::empty(), whitelist_empty: true },
                types: NodeTypeFilter { comment: None, doctype: None, text: None },
            }),
    {
        Filter {
            attrs: ValueAssociateHash::new(),
            depth: 0,
            tags: BlackWhiteList::new(),
            types: NodeTypeFilter::new(),
        }
    }

    /// The configured ancestor depth.
    pub fn as_depth(&self) -> (r: usize)
        ensures
            r as int == self@.depth,
    {
        self.depth
    }

    /// The per-kind toggles.
    pub fn as_types(&self) -> (r: &NodeTypeFilter)
        ensures
            *r == self@.types,
    {
        &self.types
    }

    /// Whether comments are kept inside a kept region: allowed unless said
    /// otherwise.
    pub fn comment_allowed(&self) -> (r: bool)
        ensures
            r == spec_unwrap_or(self@.types.comment, true),
    {
        crate::unwrap_or(self.types.comment_allowed(), true)
    }

    /// Whether doctypes are kept inside a kept region: allowed unless said
    /// otherwise.
    pub fn doctype_allowed(&self) -> (r: bool)
        ensures
            r == spec_unwrap_or(self@.types.doctype, true),
    {
        crate::unwrap_or(self.types.doctype_allowed(), true)
    }

    /// Whether texts are kept inside a kept region: allowed unless said
    /// otherwise.
    pub fn text_allowed(&self) -> (r: bool)
        ensures
            r == spec_unwrap_or(self@.types.text, true),
    {
        self.types.text_allowed()
    }

    /// Whether comments count as ambient content where nothing matched.
    pub(crate) fn comment_ambient(&self) -> (r: bool)
        ensures
            r == spec_comment_ambient(self@),
    {
        match self.types.comment_allowed() {
            Some(b) => b,
            None => false,
        }
    }

    /// Whether doctypes count as ambient content where nothing matched.
    pub(crate) fn doctype_ambient(&self) -> (r: bool)
        ensures
            r == spec_doctype_ambient(self@),
    {
        match self.types.doctype_allowed() {
            Some(b) => b,
            None => false,
        }
    }

    /// Whether texts count as ambient content where nothing matched.
    pub(crate) fn text_ambient(&self) -> (r: bool)
        ensures
            r == spec_text_ambient(self@),
    {
        match self.types.text {
            Some(b) => b,
            None => false,
        }
    }

    /// Whether the tag is kept by the heavy pass; see [`spec_tag_allowed`].
    pub fn tag_allowed(&self, tag: &Tag) -> (r: bool)
        ensures
            r == spec_tag_allowed(self@, tag@),
    {
        let name_allowed = self.tags.check(&tag.name);
        let attrs_allowed = self.attrs.check(&tag.attrs);
        let is_empty = self.attrs.is_empty() && self.tags.is_empty();
        name_allowed.and(&attrs_allowed).is_allowed_or(is_empty)
    }

    /// Whether the tag is an explicit match; see
    /// [`spec_tag_explicitly_allowed`].
    pub fn tag_explicitly_allowed(&self, tag: &Tag) -> (r: bool)
        ensures
            r == spec_tag_explicitly_allowed(self@, tag@),
    {
        let name_allowed = self.tags.check(&tag.name);
        let attrs_allowed = self.attrs.check(&tag.attrs);
        name_allowed.and(&attrs_allowed).is_allowed_or(false)
    }

    /// Whether the tag is explicitly dismissed; see
    /// [`spec_tag_blacklisted`].
    pub(crate) fn tag_blacklisted(&self, tag: &Tag) -> (r: bool)
        ensures
            r == spec_tag_blacklisted(self@, tag@),
    {
        let denied = match self.tags.lookup(&tag.name) {
            Some(false) => true,
            _ => false,
        };
        denied || self.attrs.blacklist_hit(&tag.attrs)
    }
}

/// The builder methods for kind toggles.
impl Filter {
    /// Keeps everything but comments, unless said otherwise.
    pub fn all_except_comment(self) -> (r: Filter)
        ensures
            r@ == (FilterModel {
                types: NodeTypeFilter {
                    comment: Some(false),
                    ..crate::filter::node_type::spec_set_all(self@.types, true)
                },
                ..self@
            }),
    {
        Filter { types: self.types.set_only_comment(false), ..self }
    }

    /// Keeps everything but doctypes, unless said otherwise.
    pub fn all_except_doctype(self) -> (r: Filter)
        ensures
            r@ == (FilterModel {
                types: NodeTypeFilter {
                    doctype: Some(false),
                    ..crate::filter::node_type::spec_set_all(self@.types, true)
                },
                ..self@
            }),
    {
        Filter { types: self.types.set_only_doctype(false), ..self }
    }

    /// Keeps everything but texts, unless said otherwise.
    pub fn all_except_text(self) -> (r: Filter)
        ensures
            r@ == (FilterModel {
                types: NodeTypeFilter {
                    text: Some(false),
                    ..crate::filter::node_type::spec_set_all(self@.types, true)
                },
                ..self@
            }),
    {
        Filter { types: self.types.set_only_text(false), ..self }
    }

    /// Keeps only comments among the kinds, unless said otherwise.
    pub fn none_except_comment(self) -> (r: Filter)
        ensures
            r@ == (FilterModel {
                types: NodeTypeFilter {
                    comment: Some(true),
                    ..crate::filter::node_type::spec_set_all(self@.types, false)
                },
                ..self@
            }),
    {
        Filter { types: self.types.set_only_comment(true), ..self }
    }

    /// Keeps only doctypes among the kinds, unless said otherwise.
    pub fn none_except_doctype(self) -> (r: Filter)
        ensures
            r@ == (FilterModel {
                types: NodeTypeFilter {
                    doctype: Some(true),
                    ..crate::filter::node_type::spec_set_all(self@.types, false)
                },
                ..self@
            }),
    {
        Filter { types: self.types.set_only_doctype(true), ..self }
    }

    /// Keeps only texts among the kinds, unless said otherwise.
    pub fn none_except_text(self) -> (r: Filter)
        ensures
            r@ == (FilterModel {
                types: NodeTypeFilter {
                    text: Some(true),
                    ..crate::filter::node_type::spec_set_all(self@.types, false)
                },
                ..self@
            }),
    {
        Filter { types: self.types.set_only_text(true), ..self }
    }

    /// Sets whether comments are kept.
    pub fn comment(self, comment: bool) -> (r: Filter)
        ensures
            r@ == (FilterModel {
                types: NodeTypeFilter { comment: Some(comment), ..self@.types },
                ..self@
            }),
    {
        Filter { types: self.types.set_comment(comment), ..self }
    }

    /// Sets whether doctypes are kept.
    pub fn doctype(self, doctype: bool) -> (r: Filter)
        ensures
            r@ == (FilterModel {
                types: NodeTypeFilter { doctype: Some(doctype), ..self@.types },
                ..self@
            }),
    {
        Filter { types: self.types.set_doctype(doctype), ..self }
    }

    /// Sets whether doctypes are kept; an older name for [`Filter::doctype`].
    pub fn document(self, document: bool) -> (r: Filter)
        ensures
            r@ == (FilterModel {
                types: NodeTypeFilter { doctype: Some(document), ..self@.types },
                ..self@
            }),
    {
        self.doctype(document)
    }

    /// Sets whether texts are kept.
    pub fn text(self, text: bool) -> (r: Filter)
        ensures
            r@ == (FilterModel {
                types: NodeTypeFilter { text: Some(text), ..self@.types },
                ..self@
            }),
    {
        Filter { types: self.types.set_text(text), ..self }
    }
}

/// The builder methods for tags, attributes and depth.
impl Filter {
    /// Wants tags carrying a value-less attribute named `name`.
    pub fn attribute_name(self, name: &str) -> (r: Filter)
        ensures
            r@ == (FilterModel {
                attrs: VahModel {
                    whitelist: self@.attrs.whitelist.push((name@, None)),
                    ..self@.attrs
                },
                ..self@
            }),
    {
        let mut attrs = self.attrs;
        attrs.push(lit_string(name), None, true);
        Filter { attrs, ..self }
    }

    /// Wants tags whose attribute `name` carries exactly `value`.
    pub fn attribute_value(self, name: &str, value: &str) -> (r: Filter)
        ensures
            r@ == (FilterModel {
                attrs: VahModel {
                    whitelist: self@.attrs.whitelist.push((name@, Some(value@))),
                    ..self@.attrs
                },
                ..self@
            }),
    {
        let mut attrs = self.attrs;
        attrs.push(lit_string(name), Some(lit_string(value)), true);
        Filter { attrs, ..self }
    }

    /// Dismisses tags carrying a value-less attribute named `name`.
    pub fn except_attribute_name(self, name: &str) -> (r: Filter)
        ensures
            r@ == (FilterModel {
                attrs: VahModel {
                    blacklist: self@.attrs.blacklist.push((name@, None)),
                    ..self@.attrs
                },
                ..self@
            }),
    {
        let mut attrs = self.attrs;
        attrs.push(lit_string(name), None, false);
        Filter { attrs, ..self }
    }

    /// Dismisses tags whose attribute `name` carries exactly `value`.
    pub fn except_attribute_value(self, name: &str, value: &str) -> (r: Filter)
        ensures
            r@ == (FilterModel {
                attrs: VahModel {
                    blacklist: self@.attrs.blacklist.push((name@, Some(value@))),
                    ..self@.attrs
                },
                ..self@
            }),
    {
        let mut attrs = self.attrs;
        attrs.push(lit_string(name), Some(lit_string(value)), false);
        Filter { attrs, ..self }
    }

    /// Wants tags named `name`.
    pub fn tag_name(self, name: &str) -> (r: Filter)
        ensures
            r@ == (FilterModel {
                tags: BwlModel {
                    items: self@.tags.items.push((name@, true)),
                    whitelist_empty: false,
                    ..self@.tags
                },
                ..self@
            }),
    {
        let mut tags = self.tags;
        let _ = tags.push(lit_string(name), true);
        Filter { tags, ..self }
    }

    /// Dismisses tags named `name`.
    pub fn except_tag_name(self, name: &str) -> (r: Filter)
        ensures
            r@ == (FilterModel {
                tags: BwlModel { items: self@.tags.items.push((name@, false)), ..self@.tags },
                ..self@
            }),
    {
        let mut tags = self.tags;
        let _ = tags.push(lit_string(name), false);
        Filter { tags, ..self }
    }

    /// Dismisses every tag not explicitly whitelisted.
    pub fn no_tags(self) -> (r: Filter)
        ensures
            r@ == (FilterModel { tags: BwlModel { default: false, ..self@.tags }, ..self@ }),
    {
        let mut tags = self.tags;
        tags.set_default(false);
        Filter { tags, ..self }
    }

    /// Sets the ancestor depth: a match keeps its ancestors, with everything
    /// under them, up to `depth` tags above it.
    pub fn depth(self, depth: usize) -> (r: Filter)
        ensures
            r@ == (FilterModel { depth: depth as int, ..self@ }),
    {
        Filter { depth, ..self }
    }
}

} // verus!
