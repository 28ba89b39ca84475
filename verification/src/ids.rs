//! Fresh random identifiers.
use vstd::prelude::*;

verus! {

/// A character of a hyphenated lower-case UUID.
pub open spec fn is_uuid_char(c: char) -> bool {
    ('0' <= c && c <= '9') || ('a' <= c && c <= 'f') || c == '-'
}

/// Text in the form of a hyphenated lower-case UUID: 36 characters, each a
/// hexadecimal digit or `-`.
pub open spec fn is_uuid_text(s: Seq<char>) -> bool {
    s.len() == 36 && forall|i: int| 0 <= i < 36 ==> is_uuid_char(#[trigger] s[i])
}

/// A fresh random version-4 UUID in hyphenated lower-case form.
///
/// Trusted: calls `uuid::Uuid::new_v4` and its `Display`, which writes the
/// 36-character hyphenated lower-case form. Which UUID comes out is left
/// unsaid: it is random.
#[verifier::external_body]
pub(crate) fn new_uuid_string() -> (r: String)
    ensures
        is_uuid_text(r@),
{
    uuid::Uuid::new_v4().to_string()
}

} // verus!
