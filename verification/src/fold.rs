//! Case folding by the standard library.

use vstd::prelude::*;
use vstd::string::*;

verus! {

/// The lowercase form of a text under Unicode's rules. This library calls the
/// standard library for it and states nothing of the form itself but that it
/// depends on the text alone.
pub uninterp spec fn lowercased(s: Seq<char>) -> Seq<char>;

/// A text with case set aside: its lowercase form. The empty text has no
/// letters and is its own folded form.
pub open spec fn folded(s: Seq<char>) -> Seq<char> {
    if s.len() == 0 {
        s
    } else {
        lowercased(s)
    }
}

/// `str::to_lowercase`: returns the lowercase equivalent of `s` as a new
/// string, which is what [`lowercased`] names.
#[verifier::external_body]
fn to_lowercase(s: &str) -> (out: String)
    ensures
        out@ == lowercased(s@),
{
    s.to_lowercase()
}

/// Sets case aside: the lowercase form of `s`.
pub fn fold(s: &str) -> (out: String)
    ensures
        out@ == folded(s@),
{
    if s.is_empty() {
        String::new()
    } else {
        to_lowercase(s)
    }
}

} // verus!
