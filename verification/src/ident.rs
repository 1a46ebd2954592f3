//! Identifiers of records: random UUIDs in their textual form.

use vstd::prelude::*;

verus! {

/// The four places at which a hyphenated UUID holds a hyphen.
pub open spec fn is_hyphen_position(i: int) -> bool {
    i == 8 || i == 13 || i == 18 || i == 23
}

/// A digit of lower-case hexadecimal.
pub open spec fn is_lower_hex(c: char) -> bool {
    ('0' <= c && c <= '9') || ('a' <= c && c <= 'f')
}

/// The text of a UUID in hyphenated lower-case form: 36 characters, hyphens
/// after the groups of 8, 4, 4 and 4 digits, hexadecimal digits elsewhere.
pub open spec fn is_uuid_text(s: Seq<char>) -> bool {
    &&& s.len() == 36
    &&& forall|i: int|
        0 <= i < 36 ==> if is_hyphen_position(i) {
            #[trigger] s[i] == '-'
        } else {
            is_lower_hex(s[i])
        }
}

/// The text of a random (version 4) UUID of the standard variant: the first
/// digit of the third group is `4`, and the first digit of the fourth group
/// is one of `8`, `9`, `a` and `b`.
pub open spec fn is_random_uuid_text(s: Seq<char>) -> bool {
    &&& is_uuid_text(s)
    &&& s[14] == '4'
    &&& (s[19] == '8' || s[19] == '9' || s[19] == 'a' || s[19] == 'b')
}

/// Draws a random identifier: `uuid::Uuid::new_v4`, rendered by the `Display`
/// impl of `Uuid`.
///
/// Trusted, not proved: `Display` writes the hyphenated lower-case form, and
/// `new_v4` fixes the version digit to 4 and the two variant bits to `10`.
/// Nothing is claimed of which identifier is drawn: two draws may give the
/// same text.
#[verifier::external_body]
pub(crate) fn fresh_id() -> (id: String)
    ensures
        is_random_uuid_text(id@),
{
    uuid::Uuid::new_v4().to_string()
}

/// A drawn identifier is never empty.
pub proof fn lemma_uuid_text_nonempty(s: Seq<char>)
    requires
        is_uuid_text(s),
    ensures
        s.len() > 0,
{
}

} // verus!
