//! Trusted bindings to the standard library's Unicode character
//! classification and case mapping, together with the spec-level names
//! the rest of the crate states its contracts over.

use vstd::prelude::*;

verus! {

/// Whether a character has the Unicode property `White_Space`, as decided
/// by `char::is_whitespace`.
pub uninterp spec fn is_whitespace_char(c: char) -> bool;

/// The uppercase mapping of a character, as produced by
/// `char::to_uppercase`: one or more characters.
pub uninterp spec fn upper_of(c: char) -> Seq<char>;

/// The uppercase mapping of a sequence of characters, character by
/// character: each character is replaced by its uppercase mapping, in
/// order.
pub open spec fn upper_seq(s: Seq<char>) -> Seq<char>
    decreases s.len(),
{
    if s.len() == 0 {
        Seq::empty()
    } else {
        upper_of(s[0]) + upper_seq(s.drop_first())
    }
}

/// Relies on `char::is_whitespace`: whether the character has the Unicode
/// property `White_Space`; the result depends on the character alone.
pub assume_specification[ char::is_whitespace ](c: char) -> (r: bool)
    ensures
        r == is_whitespace_char(c),
;

/// Relies on `char::to_uppercase`: the uppercase mapping of a character
/// depends on the character alone, and the returned iterator yields one
/// or more characters.
#[verifier::external_body]
pub(crate) fn char_to_upper(c: char) -> (r: String)
    ensures
        r@ == upper_of(c),
        r@.len() >= 1,
{
    c.to_uppercase().collect()
}

} // verus!
