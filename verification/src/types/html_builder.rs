//! The tree builder used during parsing.
//!
//! The node currently receiving input is defined structurally: it is reached
//! by following the last element of every sequence and the child of every
//! still-open tag, from the root. The tree itself plays the role of the
//! parser's stack, so no separate bookkeeping can fall out of step with it.

use vstd::prelude::*;

use crate::text::{chars_to_string, str_eq_chars};
use crate::types::html::{Html, HtmlModel};
use crate::types::tag::{ClosingModel, Tag, TagClosingStatus, TagModel, TagType};

verus! {

broadcast use vstd::std_specs::vec::group_vec_axioms;

/// Whether the closing `-->` of a comment has been seen.
pub struct CommentFull(pub bool);

/// A tree under construction.
///
/// Unlike [`Html`], a comment node remembers whether its closing `-->` has
/// been seen, so that characters keep flowing into it until then.
pub enum HtmlBuilder {
    /// A comment block, with its content so far and whether it was closed.
    Comment {
        /// The characters between `<!--` and `-->`.
        content: Vec<char>,
        /// Whether the closing `-->` was found.
        full: CommentFull,
    },
    /// A doctype node, as `<!DOCTYPE html>`.
    Doctype {
        /// The word after the `!`.
        name: String,
        /// The lone attribute, when present.
        attr: Option<String>,
    },
    /// The empty tree.
    Empty,
    /// A tag with its closing kind and its content so far.
    Tag {
        /// The tag header.
        tag: Tag,
        /// How the tag stands with respect to closing.
        full: TagType,
        /// The content; pushes flow here while the tag is open.
        child: Box<HtmlBuilder>,
    },
    /// Raw text.
    Text(Vec<char>),
    /// Sibling nodes in source order; never fewer than two in built trees.
    Vec(Vec<HtmlBuilder>),
}

/// Model of an [`HtmlBuilder`].
pub enum BuilderModel {
    Comment { content: Seq<char>, full: bool },
    Doctype { name: Seq<char>, attr: Option<Seq<char>> },
    Empty,
    Tag { tag: TagModel, full: TagType, child: Box<BuilderModel> },
    Text(Seq<char>),
    Vec(Seq<BuilderModel>),
}

/// View of a builder node.
pub open spec fn builder_view(b: HtmlBuilder) -> BuilderModel
    decreases b,
{
    match b {
        HtmlBuilder::Comment { content, full } => BuilderModel::Comment {
            content: content@,
            full: full.0,
        },
        HtmlBuilder::Doctype { name, attr } => BuilderModel::Doctype {
            name: name@,
            attr: crate::types::tag::opt_str_view(attr),
        },
        HtmlBuilder::Empty => BuilderModel::Empty,
        HtmlBuilder::Tag { tag, full, child } => BuilderModel::Tag {
            tag: tag@,
            full,
            child: Box::new(builder_view(*child)),
        },
        HtmlBuilder::Text(t) => BuilderModel::Text(t@),
        HtmlBuilder::Vec(v) => BuilderModel::Vec(builders_view(v@)),
    }
}

/// View of a sequence of builder nodes.
pub open spec fn builders_view(s: Seq<HtmlBuilder>) -> Seq<BuilderModel>
    decreases s,
{
    if s.len() == 0 {
        Seq::empty()
    } else {
        builders_view(s.drop_last()).push(builder_view(s.last()))
    }
}

/// The view of a builder sequence holds the views of its nodes.
pub proof fn lemma_builders_view(s: Seq<HtmlBuilder>)
    ensures
        builders_view(s).len() == s.len(),
        forall|i: int| 0 <= i < s.len() ==> builders_view(s)[i] == builder_view(s[i]),
    decreases s,
{
    if s.len() > 0 {
        lemma_builders_view(s.drop_last());
    }
}

impl View for HtmlBuilder {
    type V = BuilderModel;

    open spec fn view(&self) -> BuilderModel {
        builder_view(*self)
    }
}

// ------------------------------------------------------------------
// The builder's semantics, at the model level
// ------------------------------------------------------------------
/// Whether new input flows into this node rather than beside it.
///
/// A character extends a text node; any other input placed at a text node
/// starts a sibling instead, which is why the two cases are told apart.
pub open spec fn spec_is_pushable(m: BuilderModel, is_char: bool) -> bool {
    match m {
        BuilderModel::Empty => true,
        BuilderModel::Vec(_) => true,
        BuilderModel::Tag { full, .. } => full is Opened,
        BuilderModel::Doctype { .. } => false,
        BuilderModel::Text(_) => is_char,
        BuilderModel::Comment { full, .. } => !full,
    }
}

/// Where one character lands in the tree.
pub open spec fn spec_push_char(m: BuilderModel, ch: char) -> BuilderModel
    decreases m,
{
    match m {
        BuilderModel::Empty => BuilderModel::Text(seq![ch]),
        BuilderModel::Tag { tag, full, child } => if full is Opened {
            BuilderModel::Tag { tag, full, child: Box::new(spec_push_char(*child, ch)) }
        } else {
            BuilderModel::Vec(seq![m, BuilderModel::Text(seq![ch])])
        },
        BuilderModel::Doctype { .. } => BuilderModel::Vec(seq![m, BuilderModel::Text(seq![ch])]),
        BuilderModel::Text(t) => BuilderModel::Text(t.push(ch)),
        BuilderModel::Comment { content, full } => if full {
            BuilderModel::Vec(seq![m, BuilderModel::Text(seq![ch])])
        } else {
            BuilderModel::Comment { content: content.push(ch), full }
        },
        BuilderModel::Vec(v) => if v.len() > 0 && spec_is_pushable(v.last(), true) {
            BuilderModel::Vec(v.update(v.len() - 1, spec_push_char(v.last(), ch)))
        } else {
            BuilderModel::Vec(v.push(BuilderModel::Text(seq![ch])))
        },
    }
}

/// Where a whole node lands in the tree.
pub open spec fn spec_push_node(m: BuilderModel, node: BuilderModel) -> BuilderModel
    decreases m,
{
    match m {
        BuilderModel::Empty => node,
        BuilderModel::Tag { tag, full, child } => if full is Opened {
            BuilderModel::Tag { tag, full, child: Box::new(spec_push_node(*child, node)) }
        } else {
            BuilderModel::Vec(seq![m, node])
        },
        BuilderModel::Text(_) | BuilderModel::Doctype { .. } | BuilderModel::Comment { .. } => {
            BuilderModel::Vec(seq![m, node])
        },
        BuilderModel::Vec(v) => if v.len() > 0 && spec_is_pushable(v.last(), false) {
            BuilderModel::Vec(v.update(v.len() - 1, spec_push_node(v.last(), node)))
        } else {
            BuilderModel::Vec(v.push(node))
        },
    }
}

/// The node a freshly parsed tag becomes.
pub open spec fn spec_tag_node(tag: TagModel, inline: bool) -> BuilderModel {
    BuilderModel::Tag {
        tag,
        full: if inline {
            TagType::SelfClosing
        } else {
            TagType::Opened
        },
        child: Box::new(BuilderModel::Empty),
    }
}

/// What closing a comment does: the deepest open comment on the open path is
/// closed, and the second value tells whether one was found.
pub open spec fn spec_close_comment(m: BuilderModel) -> (BuilderModel, bool)
    decreases m,
{
    match m {
        BuilderModel::Comment { content, full } => if full {
            (m, false)
        } else {
            (BuilderModel::Comment { content, full: true }, true)
        },
        BuilderModel::Tag { tag, full, child } => if full is Opened {
            let (c2, ok) = spec_close_comment(*child);
            (BuilderModel::Tag { tag, full, child: Box::new(c2) }, ok)
        } else {
            (m, false)
        },
        BuilderModel::Vec(v) => if v.len() > 0 {
            let (l2, ok) = spec_close_comment(v.last());
            (BuilderModel::Vec(v.update(v.len() - 1, l2)), ok)
        } else {
            (m, false)
        },
        _ => (m, false),
    }
}

/// What closing a tag named `name` does.
///
/// The innermost open tag is asked first; only when nothing below is open may
/// the current tag compare its own name. A mismatch reports the name still
/// open; a tree with no open tag reports that all tags are closed.
pub open spec fn spec_close_tag(m: BuilderModel, name: Seq<char>) -> (BuilderModel, ClosingModel)
    decreases m,
{
    match m {
        BuilderModel::Tag { tag, full, child } => if full is Opened {
            let (c2, st) = spec_close_tag(*child, name);
            match st {
                ClosingModel::Full => if tag.name == name {
                    (
                        BuilderModel::Tag { tag, full: TagType::Closed, child: Box::new(c2) },
                        ClosingModel::Success,
                    )
                } else {
                    (
                        BuilderModel::Tag { tag, full, child: Box::new(c2) },
                        ClosingModel::WrongName(tag.name),
                    )
                },
                _ => (BuilderModel::Tag { tag, full, child: Box::new(c2) }, st),
            }
        } else {
            (m, ClosingModel::Full)
        },
        BuilderModel::Vec(v) => if v.len() > 0 {
            let (l2, st) = spec_close_tag(v.last(), name);
            (BuilderModel::Vec(v.update(v.len() - 1, l2)), st)
        } else {
            (m, ClosingModel::Full)
        },
        _ => (m, ClosingModel::Full),
    }
}

/// The finished tree a builder exports: comment fullness is dropped, all the
/// rest is kept.
pub open spec fn spec_into_html(m: BuilderModel) -> HtmlModel
    decreases m,
{
    match m {
        BuilderModel::Comment { content, .. } => HtmlModel::Comment(content),
        BuilderModel::Doctype { name, attr } => HtmlModel::Doctype { name, attr },
        BuilderModel::Empty => HtmlModel::Empty,
        BuilderModel::Tag { tag, full, child } => HtmlModel::Tag {
            tag,
            full,
            child: Box::new(spec_into_html(*child)),
        },
        BuilderModel::Text(t) => HtmlModel::Text(t),
        BuilderModel::Vec(v) => HtmlModel::Vec(spec_into_htmls(v)),
    }
}

/// The finished trees of a sequence of builder nodes.
pub open spec fn spec_into_htmls(v: Seq<BuilderModel>) -> Seq<HtmlModel>
    decreases v,
{
    if v.len() == 0 {
        Seq::empty()
    } else {
        spec_into_htmls(v.drop_last()).push(spec_into_html(v.last()))
    }
}

/// Exporting a sequence exports its nodes one by one.
pub proof fn lemma_into_htmls(v: Seq<BuilderModel>)
    ensures
        spec_into_htmls(v).len() == v.len(),
        forall|i: int| 0 <= i < v.len() ==> spec_into_htmls(v)[i] == spec_into_html(v[i]),
    decreases v,
{
    if v.len() > 0 {
        lemma_into_htmls(v.drop_last());
    }
}

/// The error for a closing tag when every tag is already closed.
pub open spec fn spec_msg_all_closed(name: Seq<char>) -> Seq<char> {
    "Invalid closing tag: Found closing tag for '"@ + name
        + "' but all tags are already closed."@
}

/// The error for a closing tag while another tag is still open.
pub open spec fn spec_msg_wrong_name(name: Seq<char>, open: Seq<char>) -> Seq<char> {
    "Invalid closing tag: Found closing tag for '"@ + name + "' but '"@ + open
        + "' is still open."@
}

/// What closing the tag `name` yields: the updated tree on success, and on
/// failure the error naming the tag still open, or saying all are closed.
pub open spec fn spec_apply_close(m: BuilderModel, name: Seq<char>) -> Result<
    BuilderModel,
    Seq<char>,
> {
    let (t2, st) = spec_close_tag(m, name);
    match st {
        ClosingModel::Success => Ok(t2),
        ClosingModel::Full => Err(spec_msg_all_closed(name)),
        ClosingModel::WrongName(open) => Err(spec_msg_wrong_name(name, open)),
    }
}

// ------------------------------------------------------------------
// Executable builder
// ------------------------------------------------------------------
impl HtmlBuilder {
    /// Creates an empty tree.
    pub fn new() -> (r: HtmlBuilder)
        ensures
            r@ == BuilderModel::Empty,
    {
        HtmlBuilder::Empty
    }

    /// Boxes an empty tree.
    pub fn empty_box() -> (r: Box<HtmlBuilder>)
        ensures
            (*r)@ == BuilderModel::Empty,
    {
        Box::new(HtmlBuilder::Empty)
    }

    /// Creates a tree holding one character of text.
    pub fn from_char(ch: char) -> (r: HtmlBuilder)
        ensures
            r@ == BuilderModel::Text(seq![ch]),
    {
        let mut t: Vec<char> = Vec::new();
        t.push(ch);
        proof {
            assert(t@ =~= seq![ch]);
        }
        HtmlBuilder::Text(t)
    }

    /// Whether new input flows into this node rather than beside it.
    pub fn is_pushable(&self, is_char: bool) -> (r: bool)
        ensures
            r == spec_is_pushable(self@, is_char),
    {
        match self {
            HtmlBuilder::Empty | HtmlBuilder::Vec(_) => true,
            HtmlBuilder::Tag { full, .. } => full.is_open(),
            HtmlBuilder::Doctype { .. } => false,
            HtmlBuilder::Text(_) => is_char,
            HtmlBuilder::Comment { full, .. } => !full.0,
        }
    }

    /// Pushes one character into the tree.
    pub fn push_char(self, ch: char) -> (r: HtmlBuilder)
        ensures
            r@ == spec_push_char(self@, ch),
        decreases self,
    {
        match self {
            HtmlBuilder::Empty => HtmlBuilder::from_char(ch),
            HtmlBuilder::Tag { tag, full, child } => {
                match full {
                    TagType::Opened => HtmlBuilder::Tag {
                        tag,
                        full,
                        child: Box::new(child.push_char(ch)),
                    },
                    _ => {
                        let me = HtmlBuilder::Tag { tag, full, child };
                        proof {
                            assert(seq![me@, BuilderModel::Text(seq![ch])] =~= seq![
                                me@,
                                BuilderModel::Text(seq![ch]),
                            ]);
                        }
                        pair_vec(me, HtmlBuilder::from_char(ch))
                    },
                }
            },
            HtmlBuilder::Doctype { name, attr } => {
                let me = HtmlBuilder::Doctype { name, attr };
                pair_vec(me, HtmlBuilder::from_char(ch))
            },
            HtmlBuilder::Text(mut t) => {
                t.push(ch);
                HtmlBuilder::Text(t)
            },
            HtmlBuilder::Comment { mut content, full } => {
                if full.0 {
                    let me = HtmlBuilder::Comment { content, full };
                    pair_vec(me, HtmlBuilder::from_char(ch))
                } else {
                    content.push(ch);
                    HtmlBuilder::Comment { content, full }
                }
            },
            HtmlBuilder::Vec(mut v) => {
                let ghost v0 = v@;
                match v.pop() {
                    None => {
                        v.push(HtmlBuilder::from_char(ch));
                        proof {
                            lemma_builders_view(v@);
                            assert(builders_view(v@) =~= builders_view(v0).push(
                                BuilderModel::Text(seq![ch]),
                            ));
                        }
                        HtmlBuilder::Vec(v)
                    },
                    Some(last) => {
                        if last.is_pushable(true) {
                            let l2 = last.push_char(ch);
                            v.push(l2);
                            proof {
                                lemma_builders_view(v@);
                                lemma_builders_view(v0);
                                assert(builders_view(v@) =~= builders_view(v0).update(
                                    v0.len() - 1,
                                    spec_push_char(builders_view(v0).last(), ch),
                                ));
                            }
                            HtmlBuilder::Vec(v)
                        } else {
                            v.push(last);
                            v.push(HtmlBuilder::from_char(ch));
                            proof {
                                lemma_builders_view(v@);
                                lemma_builders_view(v0);
                                assert(builders_view(v@) =~= builders_view(v0).push(
                                    BuilderModel::Text(seq![ch]),
                                ));
                            }
                            HtmlBuilder::Vec(v)
                        }
                    },
                }
            },
        }
    }

    /// Pushes a whole node into the tree.
    pub fn push_node(self, node: HtmlBuilder) -> (r: HtmlBuilder)
        ensures
            r@ == spec_push_node(self@, node@),
        decreases self,
    {
        match self {
            HtmlBuilder::Empty => node,
            HtmlBuilder::Tag { tag, full, child } => {
                match full {
                    TagType::Opened => HtmlBuilder::Tag {
                        tag,
                        full,
                        child: Box::new(child.push_node(node)),
                    },
                    _ => {
                        let me = HtmlBuilder::Tag { tag, full, child };
                        pair_vec(me, node)
                    },
                }
            },
            HtmlBuilder::Text(t) => pair_vec(HtmlBuilder::Text(t), node),
            HtmlBuilder::Doctype { name, attr } => pair_vec(
                HtmlBuilder::Doctype { name, attr },
                node,
            ),
            HtmlBuilder::Comment { content, full } => pair_vec(
                HtmlBuilder::Comment { content, full },
                node,
            ),
            HtmlBuilder::Vec(mut v) => {
                let ghost v0 = v@;
                match v.pop() {
                    None => {
                        v.push(node);
                        proof {
                            lemma_builders_view(v@);
                            assert(builders_view(v@) =~= builders_view(v0).push(node@));
                        }
                        HtmlBuilder::Vec(v)
                    },
                    Some(last) => {
                        if last.is_pushable(false) {
                            let l2 = last.push_node(node);
                            v.push(l2);
                            proof {
                                lemma_builders_view(v@);
                                lemma_builders_view(v0);
                                assert(builders_view(v@) =~= builders_view(v0).update(
                                    v0.len() - 1,
                                    spec_push_node(builders_view(v0).last(), node@),
                                ));
                            }
                            HtmlBuilder::Vec(v)
                        } else {
                            v.push(last);
                            v.push(node);
                            proof {
                                lemma_builders_view(v@);
                                lemma_builders_view(v0);
                                assert(builders_view(v@) =~= builders_view(v0).push(node@));
                            }
                            HtmlBuilder::Vec(v)
                        }
                    },
                }
            },
        }
    }

    /// Pushes a freshly parsed tag: self-closing when `inline` is set, else
    /// opened, with an empty child either way.
    pub fn push_tag(self, tag: Tag, inline: bool) -> (r: HtmlBuilder)
        ensures
            r@ == spec_push_node(self@, spec_tag_node(tag@, inline)),
    {
        let full = if inline {
            TagType::SelfClosing
        } else {
            TagType::Opened
        };
        self.push_node(HtmlBuilder::Tag { tag, full, child: HtmlBuilder::empty_box() })
    }

    /// Pushes a fresh, still-open comment node.
    pub fn push_comment(self) -> (r: HtmlBuilder)
        ensures
            r@ == spec_push_node(
                self@,
                BuilderModel::Comment { content: Seq::empty(), full: false },
            ),
    {
        let content: Vec<char> = Vec::new();
        self.push_node(HtmlBuilder::Comment { content, full: CommentFull(false) })
    }

    /// Closes the deepest open comment; returns `false` when none is open.
    pub fn close_comment(self) -> (r: (HtmlBuilder, bool))
        ensures
            (r.0@, r.1) == spec_close_comment(self@),
        decreases self,
    {
        match self {
            HtmlBuilder::Comment { content, full } => {
                if full.0 {
                    (HtmlBuilder::Comment { content, full }, false)
                } else {
                    (HtmlBuilder::Comment { content, full: CommentFull(true) }, true)
                }
            },
            HtmlBuilder::Tag { tag, full, child } => {
                match full {
                    TagType::Opened => {
                        let (c2, ok) = child.close_comment();
                        (HtmlBuilder::Tag { tag, full, child: Box::new(c2) }, ok)
                    },
                    _ => (HtmlBuilder::Tag { tag, full, child }, false),
                }
            },
            HtmlBuilder::Vec(mut v) => {
                let ghost v0 = v@;
                match v.pop() {
                    None => (HtmlBuilder::Vec(v), false),
                    Some(last) => {
                        let (l2, ok) = last.close_comment();
                        v.push(l2);
                        proof {
                            lemma_builders_view(v@);
                            lemma_builders_view(v0);
                            assert(builders_view(v@) =~= builders_view(v0).update(
                                v0.len() - 1,
                                spec_close_comment(builders_view(v0).last()).0,
                            ));
                        }
                        (HtmlBuilder::Vec(v), ok)
                    },
                }
            },
            other => (other, false),
        }
    }

    /// Closes the innermost open tag, which must be named `name`.
    pub fn close_tag_aux(self, name: &Vec<char>) -> (r: (HtmlBuilder, TagClosingStatus))
        ensures
            (r.0@, r.1@) == spec_close_tag(self@, name@),
        decreases self,
    {
        match self {
            HtmlBuilder::Tag { tag, full, child } => {
                match full {
                    TagType::Opened => {
                        let (c2, st) = child.close_tag_aux(name);
                        match st {
                            TagClosingStatus::Full => {
                                if str_eq_chars(tag.name.as_str(), name) {
                                    (
                                        HtmlBuilder::Tag {
                                            tag,
                                            full: TagType::Closed,
                                            child: Box::new(c2),
                                        },
                                        TagClosingStatus::Success,
                                    )
                                } else {
                                    let wrong = tag.name.clone();
                                    (
                                        HtmlBuilder::Tag { tag, full, child: Box::new(c2) },
                                        TagClosingStatus::WrongName(wrong),
                                    )
                                }
                            },
                            st => (HtmlBuilder::Tag { tag, full, child: Box::new(c2) }, st),
                        }
                    },
                    _ => (HtmlBuilder::Tag { tag, full, child }, TagClosingStatus::Full),
                }
            },
            HtmlBuilder::Vec(mut v) => {
                let ghost v0 = v@;
                match v.pop() {
                    None => (HtmlBuilder::Vec(v), TagClosingStatus::Full),
                    Some(last) => {
                        let (l2, st) = last.close_tag_aux(name);
                        v.push(l2);
                        proof {
                            lemma_builders_view(v@);
                            lemma_builders_view(v0);
                            assert(builders_view(v@) =~= builders_view(v0).update(
                                v0.len() - 1,
                                spec_close_tag(builders_view(v0).last(), name@).0,
                            ));
                        }
                        (HtmlBuilder::Vec(v), st)
                    },
                }
            },
            other => (other, TagClosingStatus::Full),
        }
    }

    /// Closes the innermost open tag, which must be named `name`.
    ///
    /// Returns the updated tree, or the error for a closing tag that matches
    /// no open tag: either another tag is still open, or none is.
    pub fn close_tag(self, name: &str) -> (r: Result<HtmlBuilder, String>)
        ensures
            match r {
                Ok(t) => spec_apply_close(self@, name@) == Ok::<_, Seq<char>>(t@),
                Err(e) => spec_apply_close(self@, name@) == Err::<BuilderModel, _>(e@),
            },
    {
        let ncs = crate::text::str_chars(name);
        let (t2, st) = self.close_tag_aux(&ncs);
        match st {
            TagClosingStatus::Success => Ok(t2),
            TagClosingStatus::Full => {
                let mut out: Vec<char> = Vec::new();
                crate::text::push_str_chars(&mut out, "Invalid closing tag: Found closing tag for '");
                crate::text::push_str_chars(&mut out, name);
                crate::text::push_str_chars(&mut out, "' but all tags are already closed.");
                proof {
                    assert(out@ =~= spec_msg_all_closed(name@));
                }
                Err(chars_to_string(&out))
            },
            TagClosingStatus::WrongName(open) => {
                let mut out: Vec<char> = Vec::new();
                crate::text::push_str_chars(&mut out, "Invalid closing tag: Found closing tag for '");
                crate::text::push_str_chars(&mut out, name);
                crate::text::push_str_chars(&mut out, "' but '");
                crate::text::push_str_chars(&mut out, open.as_str());
                crate::text::push_str_chars(&mut out, "' is still open.");
                proof {
                    assert(out@ =~= spec_msg_wrong_name(name@, open@));
                }
                Err(chars_to_string(&out))
            },
        }
    }

    /// Exports the finished tree, dropping the comment bookkeeping.
    #[verifier::loop_isolation(false)]
    pub fn into_html(&self) -> (r: Html)
        ensures
            r@ == spec_into_html(self@),
        decreases self,
    {
        match self {
            HtmlBuilder::Comment { content, .. } => Html::Comment(chars_to_string(content)),
            HtmlBuilder::Doctype { name, attr } => Html::Doctype {
                name: name.clone(),
                attr: match attr {
                    None => None,
                    Some(a) => Some(a.clone()),
                },
            },
            HtmlBuilder::Empty => Html::Empty,
            HtmlBuilder::Tag { tag, full, child } => Html::Tag {
                tag: tag.duplicate(),
                full: *full,
                child: Box::new(child.into_html()),
            },
            HtmlBuilder::Text(t) => Html::Text(chars_to_string(t)),
            HtmlBuilder::Vec(v) => {
                let mut out: Vec<Html> = Vec::new();
                let n = v.len();
                let mut i: usize = 0;
                while i < n
                    invariant
                        i <= n,
                        out@.len() == i as int,
                        forall|j: int|
                            0 <= j < i ==> out@[j]@ == spec_into_html(builder_view(v@[j])),
                    decreases n - i,
                {
                    let c = v[i].into_html();
                    out.push(c);
                    i = i + 1;
                }
                proof {
                    crate::types::html::lemma_htmls_view(out@);
                    lemma_builders_view(v@);
                    lemma_into_htmls(builders_view(v@));
                    assert(crate::types::html::htmls_view(out@) =~= spec_into_htmls(
                        builders_view(v@),
                    ));
                }
                Html::Vec(out)
            },
        }
    }
}

/// Wraps two nodes in a fresh sequence.
fn pair_vec(a: HtmlBuilder, b: HtmlBuilder) -> (r: HtmlBuilder)
    ensures
        r@ == BuilderModel::Vec(seq![a@, b@]),
{
    let mut v: Vec<HtmlBuilder> = Vec::new();
    v.push(a);
    v.push(b);
    proof {
        lemma_builders_view(v@);
        assert(builders_view(v@) =~= seq![v@[0]@, v@[1]@]);
    }
    HtmlBuilder::Vec(v)
}

} // verus!
