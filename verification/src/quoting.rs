//! How a reply is shown inside a report: as `{:?}` shows a string.
//!
//! The formatting is the standard library's. Nothing here is proved about
//! it; the text it writes only gets a name, so that a report can be stated
//! exactly in terms of it.

use vstd::prelude::*;

verus! {

/// A text as `{:?}` shows it: between double quotes, with the characters
/// that cannot stand for themselves escaped.
pub uninterp spec fn debug_text(s: Seq<char>) -> Seq<char>;

/// `<str as core::fmt::Debug>::fmt`, reached through `format!("{:?}", ..)`.
/// What it writes depends on the characters of `s` and on nothing else;
/// the contract gives that text its name and claims no more.
#[verifier::external_body]
pub(crate) fn debug_quoted(s: &str) -> (r: String)
    ensures
        r@ == debug_text(s@),
{
    format!("{:?}", s)
}

} // verus!
