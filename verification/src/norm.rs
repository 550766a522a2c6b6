//! Case normalization of color names.
//!
//! Lookup and mutation both key the table by the lowercase form of a name;
//! centralizing the normalization here guarantees the two never drift.

use vstd::prelude::*;

verus! {

/// The characters of the lowercase form of `s`.
///
/// This names the result of `str::to_lowercase`, which is determined by the
/// input characters alone; the contracts of the lookup and mutation
/// operations are stated over this name.
pub uninterp spec fn lower_of(s: Seq<char>) -> Seq<char>;

/// A name that is the lowercase form of some name: the only shape of name
/// the table ever stores.
pub open spec fn normalized(k: Seq<char>) -> bool {
    exists|s: Seq<char>| k == lower_of(s)
}

/// Normalizes a color name to lowercase.
///
/// Relies on `str::to_lowercase`: the result is the Unicode lowercase form
/// of `s`, a function of the input characters alone.
#[verifier::external_body]
pub(crate) fn lowercase(s: &str) -> (result: String)
    ensures
        result@ == lower_of(s@),
{
    s.to_lowercase()
}

} // verus!
