//! The parsed tree and its canonical re-serialization.

use vstd::prelude::*;

use crate::text::chars_to_string;
use crate::text::push_str_chars;
use crate::types::tag::{
    attrs_view, lemma_attrs_view, opt_str_view, spec_pn_key, Attribute, AttributeModel, PrefixName,
    Tag, TagModel, TagType,
};
use vstd::string::StrSliceExecFns;

verus! {

broadcast use vstd::std_specs::vec::group_vec_axioms;

// ------------------------------------------------------------------
// Model
// ------------------------------------------------------------------
/// Model of an [`Html`] tree.
pub enum HtmlModel {
    /// A comment block, as `<!-- note -->`.
    Comment(Seq<char>),
    /// A doctype node, as `<!DOCTYPE html>`.
    Doctype { name: Seq<char>, attr: Option<Seq<char>> },
    /// The empty tree.
    Empty,
    /// A tag with its closing kind and its content.
    Tag { tag: TagModel, full: TagType, child: Box<HtmlModel> },
    /// Raw text between tags.
    Text(Seq<char>),
    /// An ordered sequence of sibling nodes.
    Vec(Seq<HtmlModel>),
}

/// View of a tree node.
pub open spec fn html_view(h: Html) -> HtmlModel
    decreases h,
{
    match h {
        Html::Comment(c) => HtmlModel::Comment(c@),
        Html::Doctype { name, attr } => HtmlModel::Doctype {
            name: name@,
            attr: opt_str_view(attr),
        },
        Html::Empty => HtmlModel::Empty,
        Html::Tag { tag, full, child } => HtmlModel::Tag {
            tag: tag@,
            full,
            child: Box::new(html_view(*child)),
        },
        Html::Text(t) => HtmlModel::Text(t@),
        Html::Vec(v) => HtmlModel::Vec(htmls_view(v@)),
    }
}

/// View of a sequence of sibling nodes.
pub open spec fn htmls_view(s: Seq<Html>) -> Seq<HtmlModel>
    decreases s,
{
    if s.len() == 0 {
        Seq::empty()
    } else {
        htmls_view(s.drop_last()).push(html_view(s.last()))
    }
}

/// The view of a node sequence holds the views of its nodes.
pub proof fn lemma_htmls_view(s: Seq<Html>)
    ensures
        htmls_view(s).len() == s.len(),
        forall|i: int| 0 <= i < s.len() ==> htmls_view(s)[i] == html_view(s[i]),
    decreases s,
{
    if s.len() > 0 {
        lemma_htmls_view(s.drop_last());
    }
}

// ------------------------------------------------------------------
// Canonical re-serialization, at the model level
// ------------------------------------------------------------------
/// The characters one attribute shows: a leading space, the name, and the
/// value between its original quotes when there is one.
pub open spec fn spec_render_attr(a: AttributeModel) -> Seq<char> {
    match a {
        AttributeModel::NameNoValue(p) => seq![' '] + spec_pn_key(p),
        AttributeModel::NameValue { double_quote, name, value } => {
            let q: char = if double_quote {
                '"'
            } else {
                '\''
            };
            seq![' '] + spec_pn_key(name) + seq!['='] + seq![q] + value + seq![q]
        },
    }
}

/// The characters an attribute list shows, in order.
pub open spec fn spec_render_attrs(attrs: Seq<AttributeModel>) -> Seq<char>
    decreases attrs.len(),
{
    if attrs.len() == 0 {
        Seq::empty()
    } else {
        spec_render_attrs(attrs.drop_last()) + spec_render_attr(attrs.last())
    }
}

/// The canonical text of a tree: self-closing tags as `<name attrs />`,
/// closed tags as `<name attrs>child</name>`, a tag whose closing tag was
/// never found as `<name attrs>child`, doctypes as `<!name attr>` (or `<!>`
/// when empty), comments as `<!--content-->`, and sequences by concatenation.
pub open spec fn spec_render(m: HtmlModel) -> Seq<char>
    decreases m,
{
    match m {
        HtmlModel::Empty => Seq::empty(),
        HtmlModel::Text(t) => t,
        HtmlModel::Comment(c) => seq!['<', '!', '-', '-'] + c + seq!['-', '-', '>'],
        HtmlModel::Doctype { name, attr } => match attr {
            Some(a) => seq!['<', '!'] + name + seq![' '] + a + seq!['>'],
            None => if name.len() == 0 {
                seq!['<', '!', '>']
            } else {
                seq!['<', '!'] + name + seq![' ', '>']
            },
        },
        HtmlModel::Tag { tag, full, child } => {
            let head = seq!['<'] + tag.name + spec_render_attrs(tag.attrs);
            match full {
                TagType::SelfClosing => head + seq![' ', '/', '>'],
                TagType::Opened => head + seq!['>'] + spec_render(*child),
                TagType::Closed => head + seq!['>'] + spec_render(*child) + seq!['<', '/']
                    + tag.name + seq!['>'],
            }
        },
        HtmlModel::Vec(v) => spec_render_seq(v),
    }
}

/// The canonical text of a sequence of sibling nodes.
pub open spec fn spec_render_seq(v: Seq<HtmlModel>) -> Seq<char>
    decreases v,
{
    if v.len() == 0 {
        Seq::empty()
    } else {
        spec_render_seq(v.drop_last()) + spec_render(v.last())
    }
}

// ------------------------------------------------------------------
// Executable tree
// ------------------------------------------------------------------
/// A parsed tree.
///
/// Parsing builds the tree once; afterwards it is treated as a value, and
/// filtering produces new trees without touching the original.
#[derive(Debug)]
pub enum Html {
    /// A comment block, as `<!-- note -->`; the content excludes the dashes.
    Comment(String),
    /// A doctype node, as `<!DOCTYPE html>`.
    Doctype {
        /// The word after the `!`, as `DOCTYPE`.
        name: String,
        /// The lone attribute, as `html`, when present.
        attr: Option<String>,
    },
    /// The empty tree: what an empty input parses to.
    Empty,
    /// A tag together with everything between it and its closing tag.
    Tag {
        /// The tag header: name and attributes.
        tag: Tag,
        /// How the tag was closed.
        full: TagType,
        /// The content; always [`Html::Empty`] for a self-closing tag.
        child: Box<Html>,
    },
    /// Raw text between tags.
    Text(String),
    /// Two or more sibling nodes, in source order.
    Vec(Vec<Html>),
}

impl View for Html {
    type V = HtmlModel;

    open spec fn view(&self) -> HtmlModel {
        html_view(*self)
    }
}

impl Html {
    /// Creates an empty tree.
    pub fn new() -> (r: Html)
        ensures
            r@ == HtmlModel::Empty,
    {
        Html::Empty
    }

    /// Whether the tree is the empty tree.
    pub fn is_empty(&self) -> (r: bool)
        ensures
            r == (self@ is Empty),
    {
        match self {
            Html::Empty => true,
            _ => false,
        }
    }

    /// Copies a tree.
    #[verifier::loop_isolation(false)]
    pub fn duplicate(&self) -> (r: Html)
        ensures
            r@ == self@,
        decreases self,
    {
        match self {
            Html::Comment(c) => Html::Comment(c.clone()),
            Html::Doctype { name, attr } => Html::Doctype {
                name: name.clone(),
                attr: match attr {
                    None => None,
                    Some(a) => Some(a.clone()),
                },
            },
            Html::Empty => Html::Empty,
            Html::Tag { tag, full, child } => Html::Tag {
                tag: tag.duplicate(),
                full: *full,
                child: Box::new(child.duplicate()),
            },
            Html::Text(t) => Html::Text(t.clone()),
            Html::Vec(v) => {
                let mut out: Vec<Html> = Vec::new();
                let n = v.len();
                let mut i: usize = 0;
                while i < n
                    invariant
                        out@.len() == i as int,
                        i <= n,
                        forall|j: int| 0 <= j < i ==> out@[j]@ == v@[j]@,
                    decreases n - i,
                {
                    let c = v[i].duplicate();
                    out.push(c);
                    i = i + 1;
                }
                proof {
                    lemma_htmls_view(out@);
                    lemma_htmls_view(v@);
                    assert(htmls_view(out@) =~= htmls_view(v@));
                }
                Html::Vec(out)
            },
        }
    }

    /// The canonical text of the tree.
    pub fn to_string(&self) -> (r: String)
        ensures
            r@ == spec_render(self@),
    {
        let mut out: Vec<char> = Vec::new();
        self.render_into(&mut out);
        chars_to_string(&out)
    }

    /// Appends the canonical text of the tree to `out`.
    #[verifier::loop_isolation(false)]
    fn render_into(&self, out: &mut Vec<char>)
        ensures
            final(out)@ == old(out)@ + spec_render(self@),
        decreases self,
    {
        match self {
            Html::Empty => {
                proof {
                    assert(out@ =~= old(out)@ + spec_render(self@));
                }
            },
            Html::Text(t) => {
                push_str_chars(out, t.as_str());
            },
            Html::Comment(c) => {
                out.push('<');
                out.push('!');
                out.push('-');
                out.push('-');
                push_str_chars(out, c.as_str());
                out.push('-');
                out.push('-');
                out.push('>');
                proof {
                    assert(out@ =~= old(out)@ + spec_render(self@));
                }
            },
            Html::Doctype { name, attr } => {
                out.push('<');
                out.push('!');
                match attr {
                    Some(a) => {
                        push_str_chars(out, name.as_str());
                        out.push(' ');
                        push_str_chars(out, a.as_str());
                        out.push('>');
                    },
                    None => {
                        if name.unicode_len() == 0 {
                            out.push('>');
                        } else {
                            push_str_chars(out, name.as_str());
                            out.push(' ');
                            out.push('>');
                        }
                    },
                }
                proof {
                    assert(out@ =~= old(out)@ + spec_render(self@));
                }
            },
            Html::Tag { tag, full, child } => {
                out.push('<');
                push_str_chars(out, tag.name.as_str());
                self.render_attrs_into(tag, out);
                match full {
                    TagType::SelfClosing => {
                        out.push(' ');
                        out.push('/');
                        out.push('>');
                    },
                    TagType::Opened => {
                        out.push('>');
                        child.render_into(out);
                    },
                    TagType::Closed => {
                        out.push('>');
                        child.render_into(out);
                        out.push('<');
                        out.push('/');
                        push_str_chars(out, tag.name.as_str());
                        out.push('>');
                    },
                }
                proof {
                    assert(out@ =~= old(out)@ + spec_render(self@));
                }
            },
            Html::Vec(v) => {
                let n = v.len();
                let mut i: usize = 0;
                proof {
                    lemma_htmls_view(v@);
                }
                while i < n
                    invariant
                        i <= n,
                        out@ == old(out)@ + spec_render_seq(htmls_view(v@).take(i as int)),
                    decreases n - i,
                {
                    v[i].render_into(out);
                    proof {
                        let hv = htmls_view(v@);
                        assert(hv.take(i as int + 1).drop_last() =~= hv.take(i as int));
                        assert(hv.take(i as int + 1).last() == hv[i as int]);
                    }
                    i = i + 1;
                }
                proof {
                    assert(htmls_view(v@).take(n as int) =~= htmls_view(v@));
                }
            },
        }
    }

    /// Appends the text of a tag's attributes to `out`.
    #[verifier::loop_isolation(false)]
    fn render_attrs_into(&self, tag: &Tag, out: &mut Vec<char>)
        ensures
            final(out)@ == old(out)@ + spec_render_attrs(tag@.attrs),
    {
        let n = tag.attrs.len();
        let mut i: usize = 0;
        proof {
            lemma_attrs_view(tag.attrs@);
        }
        while i < n
            invariant
                i <= n,
                out@ == old(out)@ + spec_render_attrs(attrs_view(tag.attrs@).take(i as int)),
            decreases n - i,
        {
            let attr = &tag.attrs[i];
            out.push(' ');
            match attr {
                Attribute::NameNoValue(p) => {
                    render_pn_into(p, out);
                },
                Attribute::NameValue { double_quote, name, value } => {
                    render_pn_into(name, out);
                    out.push('=');
                    let q: char = if *double_quote {
                        '"'
                    } else {
                        '\''
                    };
                    out.push(q);
                    push_str_chars(out, value.as_str());
                    out.push(q);
                },
            }
            proof {
                let av = attrs_view(tag.attrs@);
                assert(av.take(i as int + 1).drop_last() =~= av.take(i as int));
                assert(av.take(i as int + 1).last() == av[i as int]);
                assert(out@ =~= old(out)@ + spec_render_attrs(av.take(i as int + 1)));
            }
            i = i + 1;
        }
        proof {
            assert(attrs_view(tag.attrs@).take(n as int) =~= attrs_view(tag.attrs@));
        }
    }
}

/// Appends the text of a prefixed name to `out`.
pub(crate) fn render_pn_into(p: &PrefixName, out: &mut Vec<char>)
    ensures
        final(out)@ == old(out)@ + spec_pn_key(p@),
{
    match p {
        PrefixName::Name(n) => {
            push_str_chars(out, n.as_str());
        },
        PrefixName::Prefix(pre, n) => {
            push_str_chars(out, pre.as_str());
            out.push(':');
            push_str_chars(out, n.as_str());
            proof {
                assert(out@ =~= old(out)@ + spec_pn_key(p@));
            }
        },
    }
}

} // verus!
