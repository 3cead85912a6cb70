//! The parse driver: a single forward pass that turns text into a tree.
//!
//! The driver hands each `<` to the tag-header parser and folds the result
//! into the tree builder. It tracks the run of dashes that opens or closes a
//! comment, whether a comment is open, and whether a raw-text element
//! (`script` or `style`) is open, whose content is not re-parsed as markup.

pub mod tag;

use vstd::prelude::*;

use crate::parse::tag::{parse_tag, spec_parse_tag, spec_parse_tag_from, spec_return_tag};
use crate::types::tag::{TagBuilder, TagBuilderModel};
use crate::text::{str_chars, str_eq};
use crate::types::html::{spec_render, Html, HtmlModel};
use crate::types::html_builder::{
    spec_apply_close, spec_close_comment, spec_into_html, spec_push_char, spec_push_node,
    spec_tag_node, BuilderModel, HtmlBuilder,
};

verus! {

/// The error for a `-->` with no comment open.
pub open spec fn spec_msg_unopened_comment() -> Seq<char> {
    "Tried to close unopened comment."@
}

/// The tree after the pending run of dashes is written out as text.
pub open spec fn spec_push_dashes(m: BuilderModel, dash: int) -> BuilderModel {
    if dash == 0 {
        m
    } else if dash == 1 {
        spec_push_char(m, '-')
    } else {
        spec_push_char(spec_push_char(m, '-'), '-')
    }
}

/// Where the pass resumes after a header that ended at `j`: the header
/// parser always moves past at least one character and never past the end of
/// the input, and these bounds make that plain.
pub open spec fn spec_resume(s: Seq<char>, i: int, j: int) -> int {
    if j < i + 1 {
        i + 1
    } else if j > s.len() {
        s.len() as int
    } else {
        j
    }
}

/// One step of the parse driver, reading `s[i]`.
///
/// `dash` is the length of the pending run of `-` (at most 2), `style` and
/// `script` tell which raw-text element is open, and `comment` whether a
/// comment is open. Reaching the end of input yields the tree built so far;
/// any pending dashes are dropped with it.
pub open spec fn spec_drive(
    s: Seq<char>,
    i: int,
    dash: int,
    style: bool,
    script: bool,
    comment: bool,
    tree: BuilderModel,
) -> Result<BuilderModel, Seq<char>>
    decreases s.len() - i,
{
    if i < 0 || i >= s.len() {
        Ok(tree)
    } else {
        let ch = s[i];
        if !comment && (style || script) {
            if ch == '<' {
                match spec_parse_tag(s, i + 1) {
                    Ok(p) => match p.0 {
                        TagBuilderModel::Close(nm) => if style && nm == "style"@ {
                            match spec_apply_close(tree, nm) {
                                Ok(t2) => spec_drive(
                                    s,
                                    if p.1 < i + 1 {
                                        i + 1
                                    } else if p.1 > s.len() {
                                        s.len() as int
                                    } else {
                                        p.1
                                    },
                                    dash,
                                    false,
                                    script,
                                    comment,
                                    t2,
                                ),
                                Err(e) => Err(e),
                            }
                        } else if script && nm == "script"@ {
                            match spec_apply_close(tree, nm) {
                                Ok(t2) => spec_drive(
                                    s,
                                    if p.1 < i + 1 {
                                        i + 1
                                    } else if p.1 > s.len() {
                                        s.len() as int
                                    } else {
                                        p.1
                                    },
                                    dash,
                                    style,
                                    false,
                                    comment,
                                    t2,
                                ),
                                Err(e) => Err(e),
                            }
                        } else {
                            spec_drive(s, i + 1, dash, style, script, comment, spec_push_char(tree, ch))
                        },
                        _ => spec_drive(
                            s,
                            i + 1,
                            dash,
                            style,
                            script,
                            comment,
                            spec_push_char(tree, ch),
                        ),
                    },
                    Err(_) => spec_drive(
                        s,
                        i + 1,
                        dash,
                        style,
                        script,
                        comment,
                        spec_push_char(tree, ch),
                    ),
                }
            } else {
                spec_drive(s, i + 1, dash, style, script, comment, spec_push_char(tree, ch))
            }
        } else if ch == '-' {
            if dash == 2 {
                spec_drive(s, i + 1, 2, style, script, comment, spec_push_char(tree, '-'))
            } else {
                spec_drive(s, i + 1, dash + 1, style, script, comment, tree)
            }
        } else if ch == '>' && dash == 2 {
            let (t2, ok) = spec_close_comment(tree);
            if ok {
                spec_drive(s, i + 1, 0, style, script, false, t2)
            } else {
                Err(spec_msg_unopened_comment())
            }
        } else {
            let t1 = spec_push_dashes(tree, dash);
            if comment {
                spec_drive(s, i + 1, 0, style, script, comment, spec_push_char(t1, ch))
            } else if ch == '<' {
                match spec_parse_tag(s, i + 1) {
                    Err(e) => Err(e),
                    Ok(p) => {
                        let j2 = if p.1 < i + 1 {
                            i + 1
                        } else if p.1 > s.len() {
                            s.len() as int
                        } else {
                            p.1
                        };
                        match p.0 {
                            TagBuilderModel::Doctype { name, attr } => spec_drive(
                                s,
                                j2,
                                0,
                                style,
                                script,
                                comment,
                                spec_push_node(t1, BuilderModel::Doctype { name, attr }),
                            ),
                            TagBuilderModel::Open(t) => {
                                let is_sty = t.name == "style"@;
                                let is_scr = t.name == "script"@;
                                spec_drive(
                                    s,
                                    j2,
                                    0,
                                    style || is_sty,
                                    script || (!is_sty && is_scr),
                                    comment,
                                    spec_push_node(t1, spec_tag_node(t, false)),
                                )
                            },
                            TagBuilderModel::OpenClose(t) => spec_drive(
                                s,
                                j2,
                                0,
                                style,
                                script,
                                comment,
                                spec_push_node(t1, spec_tag_node(t, true)),
                            ),
                            TagBuilderModel::Close(nm) => match spec_apply_close(t1, nm) {
                                Ok(t2) => spec_drive(s, j2, 0, style, script, comment, t2),
                                Err(e) => Err(e),
                            },
                            TagBuilderModel::OpenComment => spec_drive(
                                s,
                                j2,
                                0,
                                style,
                                script,
                                true,
                                spec_push_node(
                                    t1,
                                    BuilderModel::Comment { content: Seq::empty(), full: false },
                                ),
                            ),
                        }
                    },
                }
            } else {
                spec_drive(s, i + 1, 0, style, script, comment, spec_push_char(t1, ch))
            }
        }
    }
}

/// What parsing a whole text yields: the finished tree, or the first error.
pub open spec fn spec_parse(s: Seq<char>) -> Result<HtmlModel, Seq<char>> {
    match spec_drive(s, 0, 0, false, false, false, BuilderModel::Empty) {
        Ok(m) => Ok(spec_into_html(m)),
        Err(e) => Err(e),
    }
}

/// The position the pass resumes at after a header that ended at `j`.
fn resume(chars: &Vec<char>, i: usize, j: usize) -> (r: usize)
    requires
        i < chars@.len(),
    ensures
        r as int == spec_resume(chars@, i as int, j as int),
        i < r <= chars@.len(),
{
    let n = chars.len();
    if j < i + 1 {
        i + 1
    } else if j > n {
        n
    } else {
        j
    }
}

/// Writes the pending run of dashes out as text.
fn push_dashes(tree: HtmlBuilder, dash: u32) -> (r: HtmlBuilder)
    requires
        dash <= 2,
    ensures
        r@ == spec_push_dashes(tree@, dash as int),
{
    if dash == 0 {
        tree
    } else if dash == 1 {
        tree.push_char('-')
    } else {
        tree.push_char('-').push_char('-')
    }
}

/// The executable mirror of [`spec_drive`].
fn drive(
    chars: &Vec<char>,
    i: usize,
    dash: u32,
    style: bool,
    script: bool,
    comment: bool,
    tree: HtmlBuilder,
) -> (r: Result<HtmlBuilder, String>)
    requires
        dash <= 2,
    ensures
        ({
            let spec = spec_drive(chars@, i as int, dash as int, style, script, comment, tree@);
            match r {
                Ok(t) => spec == Ok::<_, Seq<char>>(t@),
                Err(e) => spec == Err::<BuilderModel, _>(e@),
            }
        }),
    decreases chars@.len() - i,
{
    if i >= chars.len() {
        return Ok(tree);
    }
    let ch = chars[i];
    if !comment && (style || script) {
        if ch == '<' {
            match parse_tag(chars, i + 1) {
                Ok((TagBuilder::Close(nm), j)) => {
                    if style && str_eq("style", nm.as_str()) {
                        match tree.close_tag(nm.as_str()) {
                            Ok(t2) => drive(chars, resume(chars, i, j), dash, false, script, comment, t2),
                            Err(e) => Err(e),
                        }
                    } else if script && str_eq("script", nm.as_str()) {
                        match tree.close_tag(nm.as_str()) {
                            Ok(t2) => drive(chars, resume(chars, i, j), dash, style, false, comment, t2),
                            Err(e) => Err(e),
                        }
                    } else {
                        drive(chars, i + 1, dash, style, script, comment, tree.push_char(ch))
                    }
                },
                Ok(_) => drive(chars, i + 1, dash, style, script, comment, tree.push_char(ch)),
                Err(_) => drive(chars, i + 1, dash, style, script, comment, tree.push_char(ch)),
            }
        } else {
            drive(chars, i + 1, dash, style, script, comment, tree.push_char(ch))
        }
    } else if ch == '-' {
        if dash == 2 {
            drive(chars, i + 1, 2, style, script, comment, tree.push_char('-'))
        } else {
            drive(chars, i + 1, dash + 1, style, script, comment, tree)
        }
    } else if ch == '>' && dash == 2 {
        let (t2, ok) = tree.close_comment();
        if ok {
            drive(chars, i + 1, 0, style, script, false, t2)
        } else {
            Err(crate::text::lit_string("Tried to close unopened comment."))
        }
    } else {
        let t1 = push_dashes(tree, dash);
        if comment {
            drive(chars, i + 1, 0, style, script, comment, t1.push_char(ch))
        } else if ch == '<' {
            match parse_tag(chars, i + 1) {
                Err(e) => Err(e),
                Ok((tb, j)) => {
                    let j2 = resume(chars, i, j);
                    match tb {
                        TagBuilder::Doctype { name, attr } => drive(
                            chars,
                            j2,
                            0,
                            style,
                            script,
                            comment,
                            t1.push_node(HtmlBuilder::Doctype { name, attr }),
                        ),
                        TagBuilder::Open(t) => {
                            let is_sty = str_eq("style", t.as_name().as_str());
                            let is_scr = str_eq("script", t.as_name().as_str());
                            drive(
                                chars,
                                j2,
                                0,
                                style || is_sty,
                                script || (!is_sty && is_scr),
                                comment,
                                t1.push_tag(t, false),
                            )
                        },
                        TagBuilder::OpenClose(t) => drive(
                            chars,
                            j2,
                            0,
                            style,
                            script,
                            comment,
                            t1.push_tag(t, true),
                        ),
                        TagBuilder::Close(nm) => {
                            match t1.close_tag(nm.as_str()) {
                                Ok(t2) => drive(chars, j2, 0, style, script, comment, t2),
                                Err(e) => Err(e),
                            }
                        },
                        TagBuilder::OpenComment => drive(
                            chars,
                            j2,
                            0,
                            style,
                            script,
                            true,
                            t1.push_comment(),
                        ),
                    }
                },
            }
        } else {
            drive(chars, i + 1, 0, style, script, comment, t1.push_char(ch))
        }
    }
}

impl Html {
    /// Parses markup text into a tree.
    ///
    /// One pass over the input; the first syntax or structure error aborts
    /// the parse and is returned, and no partial tree is given out.
    pub fn parse(html: &str) -> (r: Result<Html, String>)
        ensures
            match r {
                Ok(t) => spec_parse(html@) == Ok::<_, Seq<char>>(t@),
                Err(e) => spec_parse(html@) == Err::<HtmlModel, _>(e@),
            },
    {
        let cs = str_chars(html);
        match drive(&cs, 0, 0, false, false, false, HtmlBuilder::new()) {
            Ok(tree) => Ok(tree.into_html()),
            Err(e) => Err(e),
        }
    }
}


/// A character that carries no markup meaning to the driver: not the start
/// of a tag and not part of a dash run.
pub open spec fn spec_plain_char(c: char) -> bool {
    c != '<' && c != '-'
}

/// The driver turns a run of plain characters into text appended to the
/// current text node.
proof fn lemma_drive_plain_text(s: Seq<char>, i: int, p: Seq<char>)
    requires
        0 <= i <= s.len(),
        forall|j: int| i <= j < s.len() ==> spec_plain_char(#[trigger] s[j]),
    ensures
        spec_drive(s, i, 0, false, false, false, BuilderModel::Text(p)) == Ok::<_, Seq<char>>(
            BuilderModel::Text(p + s.skip(i)),
        ),
    decreases s.len() - i,
{
    if i >= s.len() {
        assert(p + s.skip(i) =~= p);
    } else {
        lemma_drive_plain_text(s, i + 1, p.push(s[i]));
        assert(p.push(s[i]) + s.skip(i + 1) =~= p + s.skip(i));
    }
}

/// Round trip for markup-free input: a non-empty text without `<` or `-`
/// parses to a single text node holding exactly those characters, whose
/// canonical re-serialization is the input itself.
pub proof fn lemma_round_trip_plain_text(s: Seq<char>)
    requires
        s.len() > 0,
        forall|j: int| 0 <= j < s.len() ==> spec_plain_char(#[trigger] s[j]),
    ensures
        spec_parse(s) == Ok::<_, Seq<char>>(HtmlModel::Text(s)),
        spec_render(HtmlModel::Text(s)) == s,
{
    lemma_drive_plain_text(s, 1, seq![s[0]]);
    assert(seq![s[0]] + s.skip(1) =~= s);
}


/// A character that a tag name built of plain letters keeps in the name
/// state: no closing, slash, bang, colon, dash or whitespace.
pub open spec fn spec_name_char(c: char) -> bool {
    c != '>' && c != '/' && c != '!' && c != ':' && c != '-' && !crate::text::spec_is_ws(c)
}

/// Reading the rest of a plain tag name followed by a space, a slash and a
/// closing bracket classifies the header as the self-closing tag of that
/// name, ending past the bracket.
proof fn lemma_parse_tag_plain_name(s: Seq<char>, name: Seq<char>, i: int)
    requires
        s =~= seq!['<'] + name + seq![' ', '/', '>'],
        forall|j: int| 0 <= j < name.len() ==> spec_name_char(#[trigger] name[j]),
        1 <= i <= 1 + name.len(),
    ensures
        spec_parse_tag_from(
            s,
            i,
            crate::parse::tag::TagMode::Name,
            crate::parse::tag::SlashPos::Absent,
            false,
            false,
            name.take(i - 1),
            None,
            Seq::empty(),
            Seq::empty(),
            false,
            Seq::empty(),
        ) == Ok::<_, Seq<char>>(
            (
                TagBuilderModel::OpenClose(
                    crate::types::tag::TagModel { attrs: Seq::empty(), name },
                ),
                s.len() as int,
            ),
        ),
    decreases s.len() - i,
{
    let n = name.len() as int;
    if i <= n {
        assert(s[i] == name[i - 1]);
        assert(spec_name_char(s[i]));
        lemma_parse_tag_plain_name(s, name, i + 1);
        assert(name.take(i - 1).push(name[i - 1]) =~= name.take(i));
    } else {
        assert(s[i] == ' ');
        assert(name.take(i - 1) =~= name);
        assert(s[i + 1] == '/');
        assert(s[i + 2] == '>');
        assert(i + 3 == s.len());
        let e = Seq::<char>::empty();
        let ea = Seq::<crate::types::tag::AttributeModel>::empty();
        assert(spec_parse_tag_from(
            s,
            i,
            crate::parse::tag::TagMode::Name,
            crate::parse::tag::SlashPos::Absent,
            false,
            false,
            name.take(i - 1),
            None,
            e,
            e,
            false,
            ea,
        ) == spec_parse_tag_from(
            s,
            i + 1,
            crate::parse::tag::TagMode::AttributeNone,
            crate::parse::tag::SlashPos::Absent,
            false,
            false,
            name.take(i - 1),
            None,
            e,
            e,
            false,
            ea,
        ));
        assert(spec_parse_tag_from(
            s,
            i + 1,
            crate::parse::tag::TagMode::AttributeNone,
            crate::parse::tag::SlashPos::Absent,
            false,
            false,
            name.take(i - 1),
            None,
            e,
            e,
            false,
            ea,
        ) == spec_parse_tag_from(
            s,
            i + 2,
            crate::parse::tag::TagMode::AttributeNone,
            crate::parse::tag::SlashPos::After,
            false,
            false,
            name.take(i - 1),
            None,
            e,
            e,
            false,
            ea,
        ));
        assert(spec_parse_tag_from(
            s,
            i + 2,
            crate::parse::tag::TagMode::AttributeNone,
            crate::parse::tag::SlashPos::After,
            false,
            false,
            name.take(i - 1),
            None,
            e,
            e,
            false,
            ea,
        ) == spec_return_tag(
            false,
            crate::parse::tag::SlashPos::After,
            name.take(i - 1),
            ea,
            i + 3,
        ));
        assert(spec_return_tag(
            false,
            crate::parse::tag::SlashPos::After,
            name,
            Seq::empty(),
            i + 3,
        ) == Ok::<_, Seq<char>>(
            (
                TagBuilderModel::OpenClose(
                    crate::types::tag::TagModel { attrs: Seq::empty(), name },
                ),
                i + 3,
            ),
        ));
    }
}

/// Round trip for one self-closing tag without attributes: the canonical
/// text `<name />` parses to exactly that tag, and the tag re-serializes to
/// the same text.
pub proof fn lemma_round_trip_self_closing(name: Seq<char>)
    requires
        name.len() > 0,
        forall|j: int| 0 <= j < name.len() ==> spec_name_char(#[trigger] name[j]) && name[j] != '<',
    ensures
        ({
            let s = seq!['<'] + name + seq![' ', '/', '>'];
            let tag = crate::types::tag::TagModel { attrs: Seq::empty(), name };
            let tree = HtmlModel::Tag {
                tag,
                full: crate::types::tag::TagType::SelfClosing,
                child: Box::new(HtmlModel::Empty),
            };
            spec_parse(s) == Ok::<_, Seq<char>>(tree) && spec_render(tree) == s
        }),
{
    let s = seq!['<'] + name + seq![' ', '/', '>'];
    let tag = crate::types::tag::TagModel { attrs: Seq::empty(), name };
    let tree = HtmlModel::Tag {
        tag,
        full: crate::types::tag::TagType::SelfClosing,
        child: Box::new(HtmlModel::Empty),
    };
    assert(s[0] == '<');
    assert(name.take(0) =~= Seq::<char>::empty());
    lemma_parse_tag_plain_name(s, name, 1);
    assert(spec_parse_tag(s, 1) == Ok::<_, Seq<char>>(
        (TagBuilderModel::OpenClose(tag), s.len() as int),
    ));
    let node = spec_tag_node(tag, true);
    assert(s.len() == name.len() + 4);
    assert(spec_push_dashes(BuilderModel::Empty, 0) == BuilderModel::Empty);
    assert(spec_push_node(BuilderModel::Empty, node) == node);
    assert(spec_drive(s, s.len() as int, 0, false, false, false, node) == Ok::<
        _,
        Seq<char>,
    >(node));
    assert(spec_drive(s, 0, 0, false, false, false, BuilderModel::Empty) == Ok::<
        _,
        Seq<char>,
    >(node));
    assert(spec_into_html(BuilderModel::Empty) == HtmlModel::Empty);
    assert(spec_into_html(node) == tree);
    assert(crate::types::html::spec_render_attrs(Seq::<
        crate::types::tag::AttributeModel,
    >::empty()) =~= Seq::<char>::empty());
    assert(spec_render(tree) =~= s);
}

} // verus!
