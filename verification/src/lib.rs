//! A small HTML parsing and filtering library.
//!
//! The crate parses markup text into an in-memory tree ([`prelude::Html`])
//! and lets callers select or prune subtrees with composable rules
//! ([`prelude::Filter`]): tag names, attribute names and values, node kinds
//! (comments, doctypes, texts) and an ancestor depth.
//!
//! Every public operation carries a contract that pins its result down to a
//! specification-level function over mathematical models of the trees and
//! filters, and the contracts are machine-checked.

use vstd::prelude::*;

pub mod filter;
pub mod parse;
pub mod prelude;
pub mod text;
pub mod types;

verus! {

/// Returns the value held by `opt`, or `default` when `opt` is `None`.
pub(crate) fn unwrap_or(opt: Option<bool>, default: bool) -> (r: bool)
    ensures
        r == spec_unwrap_or(opt, default),
{
    match opt {
        Some(val) => val,
        None => default,
    }
}

/// What [`unwrap_or`] returns.
pub open spec fn spec_unwrap_or(opt: Option<bool>, default: bool) -> bool {
    match opt {
        Some(val) => val,
        None => default,
    }
}

} // verus!
