//! Identifiers for transfers and clipboard revisions.

use vstd::prelude::*;

verus! {

/// Whether a character occurs in the text form of a UUID.
pub open spec fn is_id_char(c: char) -> bool {
    '0' <= c <= '9' || 'a' <= c <= 'f' || c == '-'
}

/// Whether a text has the form of a UUID: 32 lower-case hexadecimal digits in
/// groups of 8, 4, 4, 4 and 12.
pub open spec fn is_id(s: Seq<char>) -> bool {
    &&& s.len() == 36
    &&& forall|i: int| 0 <= i < 36 ==> is_id_char(#[trigger] s[i])
    &&& forall|i: int|
        0 <= i < 36 ==> (#[trigger] s[i] == '-' <==> (i == 8 || i == 13 || i == 18 || i == 23))
}

/// `uuid::Uuid::new_v4`, written out with `to_string`: a random identifier in
/// the hyphenated form. Which one it is, is left to chance.
#[verifier::external_body]
pub(crate) fn fresh_id() -> (id: String)
    ensures
        is_id(id@),
{
    uuid::Uuid::new_v4().to_string()
}

} // verus!
