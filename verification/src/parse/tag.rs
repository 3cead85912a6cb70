//! The tag-header parser: classifies and reads one tag, comment opener or
//! doctype, starting just after a `<`.
//!
//! Attribute values are taken literally between their quotes: no
//! backslash-escaping is applied, so a value ends at the first quote matching
//! the opening one.

use vstd::prelude::*;

use crate::text::{chars_to_string, push_str_chars, spec_is_ws, is_ws};
use crate::types::tag::{
    attrs_view, lemma_attrs_view, spec_pn_key, Attribute, AttributeModel, PrefixName, PrefixNameModel,
    Tag, TagBuilder, TagBuilderModel, TagModel,
};

verus! {

broadcast use vstd::std_specs::vec::group_vec_axioms;

/// The successive reading states of the tag-header parser.
pub enum TagMode {
    /// Reading the tag's name.
    Name,
    /// Between attributes, waiting for one to start or for the header to end.
    AttributeNone,
    /// Reading an attribute's name.
    AttributeName,
    /// Just after the `=` of an attribute, waiting for a quote.
    AttributeEq,
    /// Reading a single-quoted attribute value.
    AttributeSingle,
    /// Reading a double-quoted attribute value.
    AttributeDouble,
}

/// Where the closing slash was seen, relative to the tag's name.
pub enum SlashPos {
    /// After the name, as in `<div/>`.
    After,
    /// Before the name, as in `</div>`.
    Before,
    /// Not seen (yet), as in `<div>`.
    Absent,
}

/// The message for an invalid character in a given context.
pub open spec fn spec_invalid_msg(ch: char, ctx: Seq<char>) -> Seq<char> {
    "Invalid character '"@ + seq![ch] + "' in "@ + ctx + seq!['.']
}

/// The attribute name formed by an optional prefix and a name fragment.
pub open spec fn spec_cur_pn(prefix: Option<Seq<char>>, name: Seq<char>) -> PrefixNameModel {
    match prefix {
        None => PrefixNameModel::Name(name),
        Some(p) => PrefixNameModel::Prefix(p, name),
    }
}

/// How the parsing information gathered for one header is classified, per the
/// bang flag and the position of the slash.
pub open spec fn spec_return_tag(
    bang: bool,
    close: SlashPos,
    name: Seq<char>,
    attrs: Seq<AttributeModel>,
    pos: int,
) -> Result<(TagBuilderModel, int), Seq<char>> {
    match (bang, close) {
        (true, SlashPos::After) => Err(spec_invalid_msg('/', "doctype"@)),
        (true, SlashPos::Before) => Err(spec_invalid_msg('!', "closing tag"@)),
        (true, SlashPos::Absent) => if attrs.len() >= 2 {
            Err("Doctype expected at most one attribute."@)
        } else if attrs.len() == 1 {
            match attrs[0] {
                AttributeModel::NameNoValue(p) => Ok(
                    (TagBuilderModel::Doctype { name, attr: Some(spec_pn_key(p)) }, pos),
                ),
                AttributeModel::NameValue { .. } => Err(
                    "Doctype attribute must not have a value."@,
                ),
            }
        } else {
            Ok((TagBuilderModel::Doctype { name, attr: None }, pos))
        },
        (false, SlashPos::Absent) => Ok((TagBuilderModel::Open(TagModel { attrs, name }), pos)),
        (false, SlashPos::Before) => if attrs.len() > 0 {
            Err("Closing tags don't support attributes."@)
        } else {
            Ok((TagBuilderModel::Close(name), pos))
        },
        (false, SlashPos::After) => Ok(
            (TagBuilderModel::OpenClose(TagModel { attrs, name }), pos),
        ),
    }
}

/// One step of the tag-header parser, reading `s[i]` in the given state.
///
/// On success it yields the classified header and the position just after the
/// closing `>`; reaching the end of input first is an error.
pub open spec fn spec_parse_tag_from(
    s: Seq<char>,
    i: int,
    mode: TagMode,
    close: SlashPos,
    bang: bool,
    dash: bool,
    name: Seq<char>,
    cur_prefix: Option<Seq<char>>,
    cur_name: Seq<char>,
    cur_value: Seq<char>,
    cur_quote: bool,
    attrs: Seq<AttributeModel>,
) -> Result<(TagBuilderModel, int), Seq<char>>
    decreases s.len() - i,
{
    if i < 0 || i >= s.len() {
        Err("EOF: Missing closing '>'."@)
    } else {
        let ch = s[i];
        if mode is Name && ch == '-' && dash {
            Ok((TagBuilderModel::OpenComment, i + 1))
        } else if mode is Name && ch == '-' && bang {
            spec_parse_tag_from(
                s,
                i + 1,
                mode,
                close,
                bang,
                true,
                name,
                cur_prefix,
                cur_name,
                cur_value,
                cur_quote,
                attrs,
            )
        } else if dash {
            Err(spec_invalid_msg('-', "doctype"@))
        } else if (mode is Name || mode is AttributeNone) && ch == '>' {
            spec_return_tag(bang, close, name, attrs, i + 1)
        } else if mode is AttributeName && ch == '>' {
            spec_return_tag(
                bang,
                close,
                name,
                attrs.push(AttributeModel::NameNoValue(spec_cur_pn(cur_prefix, cur_name))),
                i + 1,
            )
        } else if mode is Name && ch == '/' && name.len() == 0 {
            spec_parse_tag_from(
                s,
                i + 1,
                mode,
                SlashPos::Before,
                bang,
                dash,
                name,
                cur_prefix,
                cur_name,
                cur_value,
                cur_quote,
                attrs,
            )
        } else if (mode is Name || mode is AttributeNone) && ch == '/' {
            spec_parse_tag_from(
                s,
                i + 1,
                mode,
                SlashPos::After,
                bang,
                dash,
                name,
                cur_prefix,
                cur_name,
                cur_value,
                cur_quote,
                attrs,
            )
        } else if mode is AttributeName && ch == '/' {
            spec_parse_tag_from(
                s,
                i + 1,
                TagMode::AttributeNone,
                SlashPos::After,
                bang,
                dash,
                name,
                cur_prefix,
                cur_name,
                cur_value,
                cur_quote,
                attrs.push(AttributeModel::NameNoValue(spec_cur_pn(cur_prefix, cur_name))),
            )
        } else if mode is Name && ch == '!' {
            if name.len() == 0 {
                spec_parse_tag_from(
                    s,
                    i + 1,
                    mode,
                    close,
                    true,
                    dash,
                    name,
                    cur_prefix,
                    cur_name,
                    cur_value,
                    cur_quote,
                    attrs,
                )
            } else {
                Err(spec_invalid_msg('!', "tag name"@))
            }
        } else if mode is Name && ch == ':' {
            Err(spec_invalid_msg(':', "tag name"@))
        } else if mode is Name && spec_is_ws(ch) {
            spec_parse_tag_from(
                s,
                i + 1,
                TagMode::AttributeNone,
                close,
                bang,
                dash,
                name,
                cur_prefix,
                cur_name,
                cur_value,
                cur_quote,
                attrs,
            )
        } else if mode is Name {
            spec_parse_tag_from(
                s,
                i + 1,
                mode,
                close,
                bang,
                dash,
                name.push(ch),
                cur_prefix,
                cur_name,
                cur_value,
                cur_quote,
                attrs,
            )
        } else if mode is AttributeNone && spec_is_ws(ch) {
            spec_parse_tag_from(
                s,
                i + 1,
                mode,
                close,
                bang,
                dash,
                name,
                cur_prefix,
                cur_name,
                cur_value,
                cur_quote,
                attrs,
            )
        } else if mode is AttributeNone && ch == ':' {
            spec_parse_tag_from(
                s,
                i + 1,
                TagMode::AttributeName,
                close,
                bang,
                dash,
                name,
                Some(Seq::empty()),
                Seq::empty(),
                cur_value,
                cur_quote,
                attrs,
            )
        } else if mode is AttributeNone {
            spec_parse_tag_from(
                s,
                i + 1,
                TagMode::AttributeName,
                close,
                bang,
                dash,
                name,
                None,
                seq![ch],
                cur_value,
                cur_quote,
                attrs,
            )
        } else if mode is AttributeName && ch == '=' {
            spec_parse_tag_from(
                s,
                i + 1,
                TagMode::AttributeEq,
                close,
                bang,
                dash,
                name,
                cur_prefix,
                cur_name,
                cur_value,
                cur_quote,
                attrs,
            )
        } else if mode is AttributeName && spec_is_ws(ch) {
            spec_parse_tag_from(
                s,
                i + 1,
                TagMode::AttributeNone,
                close,
                bang,
                dash,
                name,
                cur_prefix,
                cur_name,
                cur_value,
                cur_quote,
                attrs.push(AttributeModel::NameNoValue(spec_cur_pn(cur_prefix, cur_name))),
            )
        } else if mode is AttributeName && ch == ':' {
            if cur_prefix is Some {
                Err("Found 2 colons ':' in attribute name."@)
            } else {
                spec_parse_tag_from(
                    s,
                    i + 1,
                    mode,
                    close,
                    bang,
                    dash,
                    name,
                    Some(cur_name),
                    Seq::empty(),
                    cur_value,
                    cur_quote,
                    attrs,
                )
            }
        } else if mode is AttributeName {
            spec_parse_tag_from(
                s,
                i + 1,
                mode,
                close,
                bang,
                dash,
                name,
                cur_prefix,
                cur_name.push(ch),
                cur_value,
                cur_quote,
                attrs,
            )
        } else if mode is AttributeEq && ch == '"' {
            spec_parse_tag_from(
                s,
                i + 1,
                TagMode::AttributeDouble,
                close,
                bang,
                dash,
                name,
                cur_prefix,
                cur_name,
                Seq::empty(),
                true,
                attrs,
            )
        } else if mode is AttributeEq && ch == '\'' {
            spec_parse_tag_from(
                s,
                i + 1,
                TagMode::AttributeSingle,
                close,
                bang,
                dash,
                name,
                cur_prefix,
                cur_name,
                Seq::empty(),
                false,
                attrs,
            )
        } else if mode is AttributeEq {
            Err(
                "Invalid character '"@ + seq![ch]
                    + "': expected ''' or '\"' after '=' sign."@,
            )
        } else if (mode is AttributeSingle && ch == '\'') || (mode is AttributeDouble && ch
            == '"') {
            spec_parse_tag_from(
                s,
                i + 1,
                TagMode::AttributeNone,
                close,
                bang,
                dash,
                name,
                cur_prefix,
                cur_name,
                cur_value,
                cur_quote,
                attrs.push(
                    AttributeModel::NameValue {
                        double_quote: cur_quote,
                        name: spec_cur_pn(cur_prefix, cur_name),
                        value: cur_value,
                    },
                ),
            )
        } else {
            spec_parse_tag_from(
                s,
                i + 1,
                mode,
                close,
                bang,
                dash,
                name,
                cur_prefix,
                cur_name,
                cur_value.push(ch),
                cur_quote,
                attrs,
            )
        }
    }
}

/// What parsing one header from position `i` yields.
pub open spec fn spec_parse_tag(s: Seq<char>, i: int) -> Result<(TagBuilderModel, int), Seq<char>> {
    spec_parse_tag_from(
        s,
        i,
        TagMode::Name,
        SlashPos::Absent,
        false,
        false,
        Seq::empty(),
        None,
        Seq::empty(),
        Seq::empty(),
        false,
        Seq::empty(),
    )
}

/// View of an optional character buffer.
pub open spec fn opt_chars_view(o: Option<Vec<char>>) -> Option<Seq<char>> {
    match o {
        None => None,
        Some(v) => Some(v@),
    }
}

/// Builds the message for an invalid character in a given context.
fn invalid_msg(ch: char, ctx: &str) -> (r: String)
    ensures
        r@ == spec_invalid_msg(ch, ctx@),
{
    let mut out: Vec<char> = Vec::new();
    push_str_chars(&mut out, "Invalid character '");
    out.push(ch);
    push_str_chars(&mut out, "' in ");
    push_str_chars(&mut out, ctx);
    out.push('.');
    proof {
        assert(out@ =~= spec_invalid_msg(ch, ctx@));
    }
    chars_to_string(&out)
}

/// Builds the attribute name from the collected prefix and fragment.
fn mk_cur_pn(cur_prefix: &Option<Vec<char>>, cur_name: &Vec<char>) -> (r: PrefixName)
    ensures
        r@ == spec_cur_pn(opt_chars_view(*cur_prefix), cur_name@),
{
    match cur_prefix {
        None => PrefixName::Name(chars_to_string(cur_name)),
        Some(p) => PrefixName::Prefix(chars_to_string(p), chars_to_string(cur_name)),
    }
}

/// Builds a [`TagBuilder`] from the information gathered for one header.
fn return_tag(
    bang: bool,
    close: SlashPos,
    name: Vec<char>,
    attrs: Vec<Attribute>,
    pos: usize,
) -> (r: Result<(TagBuilder, usize), String>)
    ensures
        match r {
            Ok(p) => spec_return_tag(bang, close, name@, attrs_view(attrs@), pos as int)
                == Ok::<_, Seq<char>>((p.0@, p.1 as int)),
            Err(e) => spec_return_tag(bang, close, name@, attrs_view(attrs@), pos as int)
                == Err::<(TagBuilderModel, int), _>(e@),
        },
{
    let mut attrs = attrs;
    proof {
        lemma_attrs_view(attrs@);
    }
    match (bang, close) {
        (true, SlashPos::After) => Err(invalid_msg('/', "doctype")),
        (true, SlashPos::Before) => Err(invalid_msg('!', "closing tag")),
        (true, SlashPos::Absent) => {
            if attrs.len() >= 2 {
                Err(crate::text::lit_string("Doctype expected at most one attribute."))
            } else {
                let attr = match attrs.pop() {
                    None => None,
                    Some(Attribute::NameNoValue(p)) => {
                        let mut buf: Vec<char> = Vec::new();
                        crate::types::html::render_pn_into(&p, &mut buf);
                        Some(chars_to_string(&buf))
                    },
                    Some(Attribute::NameValue { .. }) => {
                        return Err(
                            crate::text::lit_string("Doctype attribute must not have a value."),
                        );
                    },
                };
                Ok((TagBuilder::Doctype { name: chars_to_string(&name), attr }, pos))
            }
        },
        (false, SlashPos::Absent) => Ok(
            (TagBuilder::Open(Tag { attrs, name: chars_to_string(&name) }), pos),
        ),
        (false, SlashPos::Before) => {
            if attrs.len() > 0 {
                Err(crate::text::lit_string("Closing tags don't support attributes."))
            } else {
                proof {
                    assert(attrs_view(attrs@) =~= Seq::<AttributeModel>::empty());
                }
                Ok((TagBuilder::Close(chars_to_string(&name)), pos))
            }
        },
        (false, SlashPos::After) => Ok(
            (TagBuilder::OpenClose(Tag { attrs, name: chars_to_string(&name) }), pos),
        ),
    }
}

/// Parses one tag header, comment opener or doctype, starting at `i`, which
/// stands just after a `<`.
///
/// Returns the classified header and the position just after the closing `>`,
/// or the error that stopped the parse.
pub fn parse_tag(chars: &Vec<char>, i: usize) -> (r: Result<(TagBuilder, usize), String>)
    ensures
        match r {
            Ok(p) => spec_parse_tag(chars@, i as int) == Ok::<_, Seq<char>>((p.0@, p.1 as int)),
            Err(e) => spec_parse_tag(chars@, i as int) == Err::<(TagBuilderModel, int), _>(e@),
        },
{
    let name: Vec<char> = Vec::new();
    let cur_name: Vec<char> = Vec::new();
    let cur_value: Vec<char> = Vec::new();
    let attrs: Vec<Attribute> = Vec::new();
    proof {
        lemma_attrs_view(attrs@);
        assert(attrs_view(attrs@) =~= Seq::<AttributeModel>::empty());
    }
    parse_tag_from(
        chars,
        i,
        TagMode::Name,
        SlashPos::Absent,
        false,
        false,
        name,
        None,
        cur_name,
        cur_value,
        false,
        attrs,
    )
}

/// The executable mirror of [`spec_parse_tag_from`].
fn parse_tag_from(
    chars: &Vec<char>,
    i: usize,
    mode: TagMode,
    close: SlashPos,
    bang: bool,
    dash: bool,
    name: Vec<char>,
    cur_prefix: Option<Vec<char>>,
    cur_name: Vec<char>,
    cur_value: Vec<char>,
    cur_quote: bool,
    attrs: Vec<Attribute>,
) -> (r: Result<(TagBuilder, usize), String>)
    ensures
        ({
            let spec = spec_parse_tag_from(
                chars@,
                i as int,
                mode,
                close,
                bang,
                dash,
                name@,
                opt_chars_view(cur_prefix),
                cur_name@,
                cur_value@,
                cur_quote,
                attrs_view(attrs@),
            );
            match r {
                Ok(p) => spec == Ok::<_, Seq<char>>((p.0@, p.1 as int)),
                Err(e) => spec == Err::<(TagBuilderModel, int), _>(e@),
            }
        }),
    decreases chars@.len() - i,
{
    let mut name = name;
    let mut cur_name = cur_name;
    let mut cur_value = cur_value;
    let mut attrs = attrs;
    proof {
        lemma_attrs_view(attrs@);
    }
    if i >= chars.len() {
        return Err(crate::text::lit_string("EOF: Missing closing '>'."));
    }
    let ch = chars[i];
    if matches!(mode, TagMode::Name) && ch == '-' && dash {
        Ok((TagBuilder::OpenComment, i + 1))
    } else if matches!(mode, TagMode::Name) && ch == '-' && bang {
        parse_tag_from(
            chars,
            i + 1,
            mode,
            close,
            bang,
            true,
            name,
            cur_prefix,
            cur_name,
            cur_value,
            cur_quote,
            attrs,
        )
    } else if dash {
        Err(invalid_msg('-', "doctype"))
    } else if matches!(mode, TagMode::Name | TagMode::AttributeNone) && ch == '>' {
        return_tag(bang, close, name, attrs, i + 1)
    } else if matches!(mode, TagMode::AttributeName) && ch == '>' {
        let pn = mk_cur_pn(&cur_prefix, &cur_name);
        let ghost a0 = attrs@;
        attrs.push(Attribute::NameNoValue(pn));
        proof {
            lemma_attrs_view(a0);
            lemma_attrs_view(attrs@);
            assert(attrs_view(attrs@) =~= attrs_view(a0).push(
                AttributeModel::NameNoValue(pn@),
            ));
        }
        return_tag(bang, close, name, attrs, i + 1)
    } else if matches!(mode, TagMode::Name) && ch == '/' && name.len() == 0 {
        parse_tag_from(
            chars,
            i + 1,
            mode,
            SlashPos::Before,
            bang,
            dash,
            name,
            cur_prefix,
            cur_name,
            cur_value,
            cur_quote,
            attrs,
        )
    } else if matches!(mode, TagMode::Name | TagMode::AttributeNone) && ch == '/' {
        parse_tag_from(
            chars,
            i + 1,
            mode,
            SlashPos::After,
            bang,
            dash,
            name,
            cur_prefix,
            cur_name,
            cur_value,
            cur_quote,
            attrs,
        )
    } else if matches!(mode, TagMode::AttributeName) && ch == '/' {
        let pn = mk_cur_pn(&cur_prefix, &cur_name);
        let ghost a0 = attrs@;
        attrs.push(Attribute::NameNoValue(pn));
        proof {
            lemma_attrs_view(a0);
            lemma_attrs_view(attrs@);
            assert(attrs_view(attrs@) =~= attrs_view(a0).push(
                AttributeModel::NameNoValue(pn@),
            ));
        }
        parse_tag_from(
            chars,
            i + 1,
            TagMode::AttributeNone,
            SlashPos::After,
            bang,
            dash,
            name,
            cur_prefix,
            cur_name,
            cur_value,
            cur_quote,
            attrs,
        )
    } else if matches!(mode, TagMode::Name) && ch == '!' {
        if name.len() == 0 {
            parse_tag_from(
                chars,
                i + 1,
                mode,
                close,
                true,
                dash,
                name,
                cur_prefix,
                cur_name,
                cur_value,
                cur_quote,
                attrs,
            )
        } else {
            Err(invalid_msg('!', "tag name"))
        }
    } else if matches!(mode, TagMode::Name) && ch == ':' {
        Err(invalid_msg(':', "tag name"))
    } else if matches!(mode, TagMode::Name) && is_ws(ch) {
        parse_tag_from(
            chars,
            i + 1,
            TagMode::AttributeNone,
            close,
            bang,
            dash,
            name,
            cur_prefix,
            cur_name,
            cur_value,
            cur_quote,
            attrs,
        )
    } else if matches!(mode, TagMode::Name) {
        name.push(ch);
        parse_tag_from(
            chars,
            i + 1,
            mode,
            close,
            bang,
            dash,
            name,
            cur_prefix,
            cur_name,
            cur_value,
            cur_quote,
            attrs,
        )
    } else if matches!(mode, TagMode::AttributeNone) && is_ws(ch) {
        parse_tag_from(
            chars,
            i + 1,
            mode,
            close,
            bang,
            dash,
            name,
            cur_prefix,
            cur_name,
            cur_value,
            cur_quote,
            attrs,
        )
    } else if matches!(mode, TagMode::AttributeNone) && ch == ':' {
        let fresh_prefix: Vec<char> = Vec::new();
        let fresh_name: Vec<char> = Vec::new();
        parse_tag_from(
            chars,
            i + 1,
            TagMode::AttributeName,
            close,
            bang,
            dash,
            name,
            Some(fresh_prefix),
            fresh_name,
            cur_value,
            cur_quote,
            attrs,
        )
    } else if matches!(mode, TagMode::AttributeNone) {
        let mut fresh_name: Vec<char> = Vec::new();
        fresh_name.push(ch);
        proof {
            assert(fresh_name@ =~= seq![ch]);
        }
        parse_tag_from(
            chars,
            i + 1,
            TagMode::AttributeName,
            close,
            bang,
            dash,
            name,
            None,
            fresh_name,
            cur_value,
            cur_quote,
            attrs,
        )
    } else if matches!(mode, TagMode::AttributeName) && ch == '=' {
        parse_tag_from(
            chars,
            i + 1,
            TagMode::AttributeEq,
            close,
            bang,
            dash,
            name,
            cur_prefix,
            cur_name,
            cur_value,
            cur_quote,
            attrs,
        )
    } else if matches!(mode, TagMode::AttributeName) && is_ws(ch) {
        let pn = mk_cur_pn(&cur_prefix, &cur_name);
        let ghost a0 = attrs@;
        attrs.push(Attribute::NameNoValue(pn));
        proof {
            lemma_attrs_view(a0);
            lemma_attrs_view(attrs@);
            assert(attrs_view(attrs@) =~= attrs_view(a0).push(
                AttributeModel::NameNoValue(pn@),
            ));
        }
        parse_tag_from(
            chars,
            i + 1,
            TagMode::AttributeNone,
            close,
            bang,
            dash,
            name,
            cur_prefix,
            cur_name,
            cur_value,
            cur_quote,
            attrs,
        )
    } else if matches!(mode, TagMode::AttributeName) && ch == ':' {
        if cur_prefix.is_some() {
            Err(crate::text::lit_string("Found 2 colons ':' in attribute name."))
        } else {
            let fresh_name: Vec<char> = Vec::new();
            parse_tag_from(
                chars,
                i + 1,
                mode,
                close,
                bang,
                dash,
                name,
                Some(cur_name),
                fresh_name,
                cur_value,
                cur_quote,
                attrs,
            )
        }
    } else if matches!(mode, TagMode::AttributeName) {
        cur_name.push(ch);
        parse_tag_from(
            chars,
            i + 1,
            mode,
            close,
            bang,
            dash,
            name,
            cur_prefix,
            cur_name,
            cur_value,
            cur_quote,
            attrs,
        )
    } else if matches!(mode, TagMode::AttributeEq) && ch == '"' {
        let fresh_value: Vec<char> = Vec::new();
        parse_tag_from(
            chars,
            i + 1,
            TagMode::AttributeDouble,
            close,
            bang,
            dash,
            name,
            cur_prefix,
            cur_name,
            fresh_value,
            true,
            attrs,
        )
    } else if matches!(mode, TagMode::AttributeEq) && ch == '\'' {
        let fresh_value: Vec<char> = Vec::new();
        parse_tag_from(
            chars,
            i + 1,
            TagMode::AttributeSingle,
            close,
            bang,
            dash,
            name,
            cur_prefix,
            cur_name,
            fresh_value,
            false,
            attrs,
        )
    } else if matches!(mode, TagMode::AttributeEq) {
        let mut out: Vec<char> = Vec::new();
        push_str_chars(&mut out, "Invalid character '");
        out.push(ch);
        push_str_chars(&mut out, "': expected ''' or '\"' after '=' sign.");
        proof {
            assert(out@ =~= "Invalid character '"@ + seq![ch]
                + "': expected ''' or '\"' after '=' sign."@);
        }
        Err(chars_to_string(&out))
    } else if (matches!(mode, TagMode::AttributeSingle) && ch == '\'') || (matches!(
        mode,
        TagMode::AttributeDouble,
    ) && ch == '"') {
        let pn = mk_cur_pn(&cur_prefix, &cur_name);
        let ghost a0 = attrs@;
        let val = chars_to_string(&cur_value);
        attrs.push(Attribute::NameValue { double_quote: cur_quote, name: pn, value: val });
        proof {
            lemma_attrs_view(a0);
            lemma_attrs_view(attrs@);
            assert(attrs_view(attrs@) =~= attrs_view(a0).push(
                AttributeModel::NameValue {
                    double_quote: cur_quote,
                    name: pn@,
                    value: cur_value@,
                },
            ));
        }
        parse_tag_from(
            chars,
            i + 1,
            TagMode::AttributeNone,
            close,
            bang,
            dash,
            name,
            cur_prefix,
            cur_name,
            cur_value,
            cur_quote,
            attrs,
        )
    } else {
        cur_value.push(ch);
        parse_tag_from(
            chars,
            i + 1,
            mode,
            close,
            bang,
            dash,
            name,
            cur_prefix,
            cur_name,
            cur_value,
            cur_quote,
            attrs,
        )
    }
}

} // verus!
