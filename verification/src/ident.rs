//! Fresh identifiers.

use vstd::prelude::*;

verus! {

/// Whether `c` is a decimal digit or one of `a` to `f`.
pub open spec fn is_lower_hex(c: char) -> bool {
    ('0' <= c && c <= '9') || ('a' <= c && c <= 'f')
}

/// Whether `s` has the shape of a hyphenated UUID in lower case: 36
/// characters, hyphens at 8, 13, 18 and 23, hexadecimal digits elsewhere.
pub open spec fn is_uuid_text(s: Seq<char>) -> bool {
    &&& s.len() == 36
    &&& forall|i: int|
        0 <= i < 36 ==> if i == 8 || i == 13 || i == 18 || i == 23 {
            s[i] == '-'
        } else {
            is_lower_hex(#[trigger] s[i])
        }
}

/// Draws a random identifier with `uuid::Uuid::new_v4` and writes it with
/// its `Display`, the hyphenated form in lower case. Two calls differ; only
/// the shape is promised.
#[verifier::external_body]
pub(crate) fn random_uuid() -> (r: String)
    ensures
        is_uuid_text(r@),
{
    uuid::Uuid::new_v4().to_string()
}

/// A fresh random identifier.
pub fn new_id() -> (r: String)
    ensures
        is_uuid_text(r@),
{
    random_uuid()
}

} // verus!
