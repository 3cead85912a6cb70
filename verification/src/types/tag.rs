//! Tag headers: names with optional namespace prefixes, attributes, and the
//! classification of a parsed header.

use vstd::prelude::*;

use crate::text::{chars_to_string, str_chars, str_eq};

verus! {

// ------------------------------------------------------------------
// Models
// ------------------------------------------------------------------
/// Model of a [`PrefixName`]: the fragment either has no prefix, or a prefix
/// and a name separated by a colon.
pub enum PrefixNameModel {
    Name(Seq<char>),
    Prefix(Seq<char>, Seq<char>),
}

/// Model of an [`Attribute`].
pub enum AttributeModel {
    NameNoValue(PrefixNameModel),
    NameValue { double_quote: bool, name: PrefixNameModel, value: Seq<char> },
}

/// Model of a [`Tag`]: its name and its attributes, in source order and not
/// deduplicated.
pub struct TagModel {
    pub attrs: Seq<AttributeModel>,
    pub name: Seq<char>,
}

/// Model of a [`TagClosingStatus`].
pub enum ClosingModel {
    Full,
    Success,
    WrongName(Seq<char>),
}

/// The characters a prefixed name shows: `prefix:name`, or the bare name.
pub open spec fn spec_pn_key(p: PrefixNameModel) -> Seq<char> {
    match p {
        PrefixNameModel::Name(n) => n,
        PrefixNameModel::Prefix(pre, n) => pre + seq![':'] + n,
    }
}

/// The name part of an attribute.
pub open spec fn spec_attr_name(a: AttributeModel) -> PrefixNameModel {
    match a {
        AttributeModel::NameNoValue(p) => p,
        AttributeModel::NameValue { name, .. } => name,
    }
}

/// The value part of an attribute: `None` for a value-less attribute.
pub open spec fn spec_attr_value(a: AttributeModel) -> Option<Seq<char>> {
    match a {
        AttributeModel::NameNoValue(_) => None,
        AttributeModel::NameValue { value, .. } => Some(value),
    }
}

/// Index of the first colon in `s` at or after `i`, if any.
pub open spec fn spec_first_colon(s: Seq<char>, i: int) -> Option<int>
    decreases s.len() - i,
{
    if i < 0 || i >= s.len() {
        None
    } else if s[i] == ':' {
        Some(i)
    } else {
        spec_first_colon(s, i + 1)
    }
}

/// How a query string is read as a prefixed name: it splits at its first
/// colon, and a string without a colon is a bare name.
pub open spec fn spec_pn_of(s: Seq<char>) -> PrefixNameModel {
    match spec_first_colon(s, 0) {
        None => PrefixNameModel::Name(s),
        Some(i) => PrefixNameModel::Prefix(s.take(i), s.skip(i + 1)),
    }
}

/// The first attribute of `attrs` whose name equals `name`, if any.
pub open spec fn spec_find_attr(attrs: Seq<AttributeModel>, name: PrefixNameModel) -> Option<
    AttributeModel,
>
    decreases attrs.len(),
{
    if attrs.len() == 0 {
        None
    } else if spec_attr_name(attrs.first()) == name {
        Some(attrs.first())
    } else {
        spec_find_attr(attrs.drop_first(), name)
    }
}

/// What [`Tag::find_attr_value`] returns: the value of the first attribute
/// named `name`, or `None` when there is no such attribute or it has no value.
pub open spec fn spec_tag_attr_value(t: TagModel, name: Seq<char>) -> Option<Seq<char>> {
    match spec_find_attr(t.attrs, spec_pn_of(name)) {
        None => None,
        Some(a) => spec_attr_value(a),
    }
}

/// View of an optional owned string.
pub open spec fn opt_str_view(o: Option<String>) -> Option<Seq<char>> {
    match o {
        None => None,
        Some(s) => Some(s@),
    }
}

// ------------------------------------------------------------------
// Executable types
// ------------------------------------------------------------------
/// A tag or attribute name with an optional namespace prefix.
///
/// In `<a xlink:href="x"/>` the attribute name has prefix `xlink` and name
/// `href`; in `<a id="x"/>` the attribute name is the bare `id`.
#[derive(Debug)]
pub enum PrefixName {
    /// A name without a prefix.
    Name(String),
    /// A prefix and a name, written `prefix:name` in source.
    Prefix(String, String),
}

impl View for PrefixName {
    type V = PrefixNameModel;

    open spec fn view(&self) -> PrefixNameModel {
        match self {
            PrefixName::Name(n) => PrefixNameModel::Name(n@),
            PrefixName::Prefix(p, n) => PrefixNameModel::Prefix(p@, n@),
        }
    }
}

impl PrefixName {
    /// Reads a query string as a prefixed name, splitting at its first colon.
    pub fn of_str(s: &str) -> (r: PrefixName)
        ensures
            r@ == spec_pn_of(s@),
    {
        let cs = str_chars(s);
        let n = cs.len();
        let mut i: usize = 0;
        while i < n
            invariant
                n == cs@.len(),
                cs@ == s@,
                i <= n,
                spec_first_colon(s@, 0) == spec_first_colon(s@, i as int),
                forall|j: int| 0 <= j < i ==> s@[j] != ':',
            decreases n - i,
        {
            if cs[i] == ':' {
                let prefix = chars_range(&cs, 0, i);
                let name = chars_range(&cs, i + 1, n);
                return PrefixName::Prefix(prefix, name);
            }
            i = i + 1;
        }
        PrefixName::Name(chars_to_string(&cs))
    }

    /// Copies a prefixed name.
    pub(crate) fn duplicate(&self) -> (r: PrefixName)
        ensures
            r@ == self@,
    {
        match self {
            PrefixName::Name(n) => PrefixName::Name(n.clone()),
            PrefixName::Prefix(p, n) => PrefixName::Prefix(p.clone(), n.clone()),
        }
    }

    /// Compares two prefixed names by their parts.
    pub(crate) fn eq_pn(&self, other: &PrefixName) -> (r: bool)
        ensures
            r == (self@ == other@),
    {
        match (self, other) {
            (PrefixName::Name(a), PrefixName::Name(b)) => str_eq(a.as_str(), b.as_str()),
            (PrefixName::Prefix(ap, an), PrefixName::Prefix(bp, bn)) => {
                str_eq(ap.as_str(), bp.as_str()) && str_eq(an.as_str(), bn.as_str())
            },
            _ => false,
        }
    }
}

/// Copies the characters of `v` between `from` and `to` into an owned string.
fn chars_range(v: &Vec<char>, from: usize, to: usize) -> (r: String)
    requires
        from <= to <= v@.len(),
    ensures
        r@ == v@.subrange(from as int, to as int),
{
    let mut out: Vec<char> = Vec::new();
    let mut i: usize = from;
    while i < to
        invariant
            from <= i <= to <= v@.len(),
            out@ == v@.subrange(from as int, i as int),
        decreases to - i,
    {
        out.push(v[i]);
        proof {
            assert(out@ =~= v@.subrange(from as int, i as int + 1));
        }
        i = i + 1;
    }
    chars_to_string(&out)
}

/// One attribute of a tag: a name alone, or a name with a quoted value.
#[derive(Debug)]
pub enum Attribute {
    /// An attribute without a value, as `enabled` in `<button enabled/>`.
    NameNoValue(PrefixName),
    /// An attribute with a value, as `id="blob"` in `<div id="blob"/>`.
    NameValue {
        /// `true` when the value was delimited by double quotes.
        double_quote: bool,
        /// The attribute's name, possibly prefixed.
        name: PrefixName,
        /// The attribute's value, without its quotes.
        value: String,
    },
}

impl View for Attribute {
    type V = AttributeModel;

    open spec fn view(&self) -> AttributeModel {
        match self {
            Attribute::NameNoValue(p) => AttributeModel::NameNoValue(p@),
            Attribute::NameValue { double_quote, name, value } => AttributeModel::NameValue {
                double_quote: *double_quote,
                name: name@,
                value: value@,
            },
        }
    }
}

impl Attribute {
    /// The attribute's name.
    pub fn as_name(&self) -> (r: &PrefixName)
        ensures
            r@ == spec_attr_name(self@),
    {
        match self {
            Attribute::NameNoValue(p) => p,
            Attribute::NameValue { name, .. } => name,
        }
    }

    /// The attribute's value, or `None` for a value-less attribute.
    pub fn as_value(&self) -> (r: Option<&String>)
        ensures
            match r {
                None => spec_attr_value(self@) is None,
                Some(s) => spec_attr_value(self@) == Some(s@),
            },
    {
        match self {
            Attribute::NameNoValue(_) => None,
            Attribute::NameValue { value, .. } => Some(value),
        }
    }

    /// Copies an attribute.
    pub(crate) fn duplicate(&self) -> (r: Attribute)
        ensures
            r@ == self@,
    {
        match self {
            Attribute::NameNoValue(p) => Attribute::NameNoValue(p.duplicate()),
            Attribute::NameValue { double_quote, name, value } => Attribute::NameValue {
                double_quote: *double_quote,
                name: name.duplicate(),
                value: value.clone(),
            },
        }
    }

    /// The attribute's value, taken out of the attribute.
    pub fn into_value(self) -> (r: Option<String>)
        ensures
            opt_str_view(r) == spec_attr_value(self@),
    {
        match self {
            Attribute::NameNoValue(_) => None,
            Attribute::NameValue { value, .. } => Some(value),
        }
    }
}

/// A tag header: its name and its attributes, in source order.
#[derive(Debug)]
pub struct Tag {
    /// The attributes, kept in source order and not deduplicated.
    pub attrs: Vec<Attribute>,
    /// The tag's name, as `div` in `<div id="blob">`.
    pub name: String,
}

/// View of an attribute vector.
pub open spec fn attrs_view(attrs: Seq<Attribute>) -> Seq<AttributeModel>
    decreases attrs,
{
    if attrs.len() == 0 {
        Seq::empty()
    } else {
        attrs_view(attrs.drop_last()).push(attrs.last()@)
    }
}

/// The view of an attribute vector holds the views of its attributes.
pub proof fn lemma_attrs_view(attrs: Seq<Attribute>)
    ensures
        attrs_view(attrs).len() == attrs.len(),
        forall|i: int| 0 <= i < attrs.len() ==> attrs_view(attrs)[i] == attrs[i]@,
    decreases attrs,
{
    if attrs.len() > 0 {
        lemma_attrs_view(attrs.drop_last());
    }
}

impl View for Tag {
    type V = TagModel;

    open spec fn view(&self) -> TagModel {
        TagModel { attrs: attrs_view(self.attrs@), name: self.name@ }
    }
}

impl Tag {
    /// The tag's name.
    pub fn as_name(&self) -> (r: &String)
        ensures
            r@ == self@.name,
    {
        &self.name
    }

    /// Copies a tag header.
    pub(crate) fn duplicate(&self) -> (r: Tag)
        ensures
            r@ == self@,
    {
        let mut attrs: Vec<Attribute> = Vec::new();
        let n = self.attrs.len();
        let mut i: usize = 0;
        while i < n
            invariant
                n == self.attrs@.len(),
                i <= n,
                attrs@.len() == i as int,
                forall|j: int| 0 <= j < i ==> attrs@[j]@ == self.attrs@[j]@,
            decreases n - i,
        {
            attrs.push(self.attrs[i].duplicate());
            i = i + 1;
        }
        proof {
            lemma_attrs_view(attrs@);
            lemma_attrs_view(self.attrs@);
            assert(attrs_view(attrs@) =~= attrs_view(self.attrs@));
        }
        Tag { attrs, name: self.name.clone() }
    }

    /// The value of the first attribute named `name`.
    ///
    /// Returns `None` when no attribute has that name, or when the first one
    /// that does has no value.
    pub fn find_attr_value(&self, name: &str) -> (r: Option<&String>)
        ensures
            match r {
                None => spec_tag_attr_value(self@, name@) is None,
                Some(s) => spec_tag_attr_value(self@, name@) == Some(s@),
            },
    {
        let pn = PrefixName::of_str(name);
        let n = self.attrs.len();
        let mut i: usize = 0;
        proof {
            lemma_attrs_view(self.attrs@);
            assert(self@.attrs.skip(0) =~= self@.attrs);
        }
        while i < n
            invariant
                n == self.attrs@.len(),
                i <= n,
                attrs_view(self.attrs@).len() == n,
                forall|j: int| 0 <= j < n ==> attrs_view(self.attrs@)[j] == self.attrs@[j]@,
                pn@ == spec_pn_of(name@),
                spec_find_attr(self@.attrs, pn@) == spec_find_attr(
                    self@.attrs.skip(i as int),
                    pn@,
                ),
            decreases n - i,
        {
            let attr = &self.attrs[i];
            proof {
                assert(self@.attrs.skip(i as int).first() == self.attrs@[i as int]@);
                assert(self@.attrs.skip(i as int).drop_first() =~= self@.attrs.skip(i as int + 1));
            }
            if attr.as_name().eq_pn(&pn) {
                return attr.as_value();
            }
            i = i + 1;
        }
        proof {
            assert(self@.attrs.skip(n as int) =~= Seq::<AttributeModel>::empty());
        }
        None
    }

    /// The value of the first attribute named `name`, taken out of the tag.
    ///
    /// Returns `None` when no attribute has that name, or when the first one
    /// that does has no value.
    pub fn into_attr_value(self, name: &str) -> (r: Option<String>)
        ensures
            opt_str_view(r) == spec_tag_attr_value(self@, name@),
    {
        match self.find_attr_value(name) {
            None => None,
            Some(v) => Some(v.clone()),
        }
    }
}

/// What a parsed header was classified as.
pub enum TagBuilder {
    /// A closing tag, as `</div>`.
    Close(String),
    /// A doctype header, as `<!DOCTYPE html>`.
    Doctype {
        /// The word after the `!`, as `DOCTYPE`.
        name: String,
        /// The lone value-less attribute, as `html`, if present.
        attr: Option<String>,
    },
    /// An opening tag, as `<div>`.
    Open(Tag),
    /// A self-closing tag, as `<br />`.
    OpenClose(Tag),
    /// The opener of a comment, `<!--`.
    OpenComment,
}

/// Model of a [`TagBuilder`].
pub enum TagBuilderModel {
    Close(Seq<char>),
    Doctype { name: Seq<char>, attr: Option<Seq<char>> },
    Open(TagModel),
    OpenClose(TagModel),
    OpenComment,
}

impl View for TagBuilder {
    type V = TagBuilderModel;

    open spec fn view(&self) -> TagBuilderModel {
        match self {
            TagBuilder::Close(n) => TagBuilderModel::Close(n@),
            TagBuilder::Doctype { name, attr } => TagBuilderModel::Doctype {
                name: name@,
                attr: opt_str_view(*attr),
            },
            TagBuilder::Open(t) => TagBuilderModel::Open(t@),
            TagBuilder::OpenClose(t) => TagBuilderModel::OpenClose(t@),
            TagBuilder::OpenComment => TagBuilderModel::OpenComment,
        }
    }
}

/// The answer the tree gives when asked to close a tag.
pub enum TagClosingStatus {
    /// No tag below is open: the request must be answered higher up, or fail.
    Full,
    /// A tag was closed.
    Success,
    /// The innermost open tag has another name, which is carried here.
    WrongName(String),
}

impl View for TagClosingStatus {
    type V = ClosingModel;

    open spec fn view(&self) -> ClosingModel {
        match self {
            TagClosingStatus::Full => ClosingModel::Full,
            TagClosingStatus::Success => ClosingModel::Success,
            TagClosingStatus::WrongName(n) => ClosingModel::WrongName(n@),
        }
    }
}

/// How a tag stands with respect to closing.
#[derive(Clone, Copy, PartialEq, Eq, Structural, Debug)]
pub enum TagType {
    /// The closing tag was found, as `<div>...</div>`.
    Closed,
    /// The closing tag was not yet found, as `<div>` alone.
    Opened,
    /// The tag closes itself, as `<div />`.
    SelfClosing,
}

impl TagType {
    /// Whether the tag still accepts children.
    pub fn is_open(&self) -> (r: bool)
        ensures
            r == (*self is Opened),
    {
        match self {
            TagType::Opened => true,
            _ => false,
        }
    }
}

} // verus!
