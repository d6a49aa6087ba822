//! Text primitives shared by the filter evaluator and the fetch checks.

use vstd::prelude::*;

verus! {

/// What `str::to_lowercase` returns for a given text (Unicode lower-case
/// mapping of every character).
pub uninterp spec fn lower_of(s: Seq<char>) -> Seq<char>;

/// `needle` occurs as a contiguous part of `hay` (the empty text occurs in
/// every text).
pub open spec fn is_substring(needle: Seq<char>, hay: Seq<char>) -> bool {
    exists|i: int|
        0 <= i && i + needle.len() <= hay.len() && #[trigger] hay.subrange(i, i + needle.len())
            == needle
}

/// Relies on `str::to_lowercase`: the result depends on the characters
/// alone, and the empty text stays empty.
#[verifier::external_body]
pub(crate) fn lowercase(s: &str) -> (r: String)
    ensures
        r@ == lower_of(s@),
        s@.len() == 0 ==> r@.len() == 0,
{
    s.to_lowercase()
}

/// Relies on `str::contains` with a `&str` pattern: true exactly when the
/// pattern occurs as a contiguous part of the text.
#[verifier::external_body]
pub(crate) fn contains_text(hay: &str, needle: &str) -> (r: bool)
    ensures
        r == is_substring(needle@, hay@),
{
    hay.contains(needle)
}

/// Whether `needle` occurs in `hay` once both are lower-cased.
pub open spec fn contains_folded(hay: Seq<char>, needle: Seq<char>) -> bool {
    is_substring(lower_of(needle), lower_of(hay))
}

} // verus!
