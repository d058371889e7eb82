//! Text normalization at the storage boundary.
//!
//! Category names are stored whitespace-trimmed and compared per account
//! under a lower-cased key; user emails are normalized the same way. The
//! two normalizations are Unicode-aware library calls; their results are
//! named here so contracts can speak about them exactly.

use vstd::prelude::*;

verus! {

/// The result of `str::trim` on `s`: `s` with leading and trailing
/// whitespace removed.
pub uninterp spec fn trim_of(s: Seq<char>) -> Seq<char>;

/// The result of `str::to_lowercase` on `s`: the Unicode lower-cased form.
pub uninterp spec fn lower_of(s: Seq<char>) -> Seq<char>;

/// Relies on `str::trim`: removes leading and trailing whitespace; the
/// result is a function of the characters alone.
#[verifier::external_body]
pub(crate) fn trim_string(s: &String) -> (r: String)
    ensures
        r@ == trim_of(s@),
{
    s.trim().to_owned()
}

/// Relies on `str::to_lowercase`: Unicode lower-casing; the result is a
/// function of the characters alone.
#[verifier::external_body]
pub(crate) fn lower_string(s: &String) -> (r: String)
    ensures
        r@ == lower_of(s@),
{
    s.to_lowercase()
}

} // verus!
