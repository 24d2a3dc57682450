//! Fresh identifiers.
use vstd::prelude::*;

verus! {

/// The characters of an identifier: digits and upper-case letters without I, L, O and U.
pub open spec fn is_id_char(c: char) -> bool {
    ('0' <= c <= '9' || 'A' <= c <= 'Z') && c != 'I' && c != 'L' && c != 'O' && c != 'U'
}

/// Whether a text has the shape of an identifier.
pub open spec fn is_id(s: Seq<char>) -> bool {
    s.len() == 26 && forall|i: int| 0 <= i < s.len() ==> is_id_char(#[trigger] s[i])
}

/// `Ulid::new().to_string()`: an identifier made from the time and chance, as 26 characters of
/// Crockford's base 32. Nothing is said of which one it is.
#[verifier::external_body]
pub(crate) fn new_id() -> (r: String)
    ensures
        is_id(r@),
{
    ulid::Ulid::new().to_string()
}

} // verus!
