//! Case folding, done by the standard library.

use vstd::prelude::*;

verus! {

/// The lower-case form that `str::to_lowercase` of the standard library gives
/// a text. It depends on the characters of the text alone, not on a locale;
/// it may differ from the text in length.
pub uninterp spec fn lowercase(s: Seq<char>) -> Seq<char>;

/// Calls `str::to_lowercase`. Not proved: that the result is the lower-case
/// form of `s`, the same for the same characters on every call, and that the
/// text without characters has the lower-case form without characters, since
/// the conversion goes character by character.
#[verifier::external_body]
pub(crate) fn to_lower(s: &str) -> (r: String)
    ensures
        r@ == lowercase(s@),
        s@.len() == 0 ==> r@.len() == 0,
{
    s.to_lowercase()
}

} // verus!
