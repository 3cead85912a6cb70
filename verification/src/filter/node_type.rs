//! The per-kind toggles: comments, doctypes and texts can each be allowed,
//! denied, or left unspecified, and the effective boolean is computed only at
//! decision time.

use vstd::prelude::*;

use crate::{spec_unwrap_or, unwrap_or};

verus! {

/// Tri-state toggles for the three content kinds.
///
/// `None` means the user said nothing about that kind; what silence resolves
/// to depends on where the question is asked, so the raw state is kept.
#[derive(Clone, Copy)]
pub struct NodeTypeFilter {
    /// Whether comments (`<!-- note -->`) are wanted.
    pub comment: Option<bool>,
    /// Whether doctype nodes (`<!DOCTYPE html>`) are wanted.
    pub doctype: Option<bool>,
    /// Whether raw texts are wanted.
    pub text: Option<bool>,
}

impl NodeTypeFilter {
    /// Creates the all-unspecified state.
    pub fn new() -> (r: NodeTypeFilter)
        ensures
            r == (NodeTypeFilter { comment: None, doctype: None, text: None }),
    {
        NodeTypeFilter { comment: None, doctype: None, text: None }
    }

    /// The raw comment toggle.
    pub fn comment_allowed(&self) -> (r: Option<bool>)
        ensures
            r == self.comment,
    {
        self.comment
    }

    /// The raw doctype toggle.
    pub fn doctype_allowed(&self) -> (r: Option<bool>)
        ensures
            r == self.doctype,
    {
        self.doctype
    }

    /// The effective text toggle: texts are kept unless said otherwise.
    pub fn text_allowed(&self) -> (r: bool)
        ensures
            r == spec_unwrap_or(self.text, true),
    {
        unwrap_or(self.text, true)
    }

    /// Sets the comment toggle.
    pub fn set_comment(self, comment: bool) -> (r: NodeTypeFilter)
        ensures
            r == (NodeTypeFilter { comment: Some(comment), ..self }),
    {
        NodeTypeFilter { comment: Some(comment), ..self }
    }

    /// Sets the doctype toggle.
    pub fn set_doctype(self, doctype: bool) -> (r: NodeTypeFilter)
        ensures
            r == (NodeTypeFilter { doctype: Some(doctype), ..self }),
    {
        NodeTypeFilter { doctype: Some(doctype), ..self }
    }

    /// Sets the text toggle.
    pub fn set_text(self, text: bool) -> (r: NodeTypeFilter)
        ensures
            r == (NodeTypeFilter { text: Some(text), ..self }),
    {
        NodeTypeFilter { text: Some(text), ..self }
    }

    /// Sets the comment toggle, and every toggle not yet set to the contrary.
    pub fn set_only_comment(self, comment: bool) -> (r: NodeTypeFilter)
        ensures
            r == (NodeTypeFilter { comment: Some(comment), ..spec_set_all(self, !comment) }),
    {
        let base = self.set_all(!comment);
        NodeTypeFilter { comment: Some(comment), ..base }
    }

    /// Sets the doctype toggle, and every toggle not yet set to the contrary.
    pub fn set_only_doctype(self, doctype: bool) -> (r: NodeTypeFilter)
        ensures
            r == (NodeTypeFilter { doctype: Some(doctype), ..spec_set_all(self, !doctype) }),
    {
        let base = self.set_all(!doctype);
        NodeTypeFilter { doctype: Some(doctype), ..base }
    }

    /// Sets the text toggle, and every toggle not yet set to the contrary.
    pub fn set_only_text(self, text: bool) -> (r: NodeTypeFilter)
        ensures
            r == (NodeTypeFilter { text: Some(text), ..spec_set_all(self, !text) }),
    {
        let base = self.set_all(!text);
        NodeTypeFilter { text: Some(text), ..base }
    }

    /// Sets every toggle not yet set to `keep`.
    fn set_all(self, keep: bool) -> (r: NodeTypeFilter)
        ensures
            r == spec_set_all(self, keep),
    {
        NodeTypeFilter {
            comment: match self.comment {
                None => Some(keep),
                some => some,
            },
            doctype: match self.doctype {
                None => Some(keep),
                some => some,
            },
            text: match self.text {
                None => Some(keep),
                some => some,
            },
        }
    }
}

/// Every unset toggle set to `keep`, the set ones kept.
pub open spec fn spec_set_all(t: NodeTypeFilter, keep: bool) -> NodeTypeFilter {
    NodeTypeFilter {
        comment: match t.comment {
            None => Some(keep),
            some => some,
        },
        doctype: match t.doctype {
            None => Some(keep),
            some => some,
        },
        text: match t.text {
            None => Some(keep),
            some => some,
        },
    }
}

} // verus!
