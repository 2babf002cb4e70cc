//! Session token material: the opaque session identifier and the token
//! payload shape kept for a future signed-token scheme.

use vstd::prelude::*;

verus! {

/// A character of a lowercase hexadecimal rendering.
pub open spec fn is_lower_hex_char(c: char) -> bool {
    ('0' <= c && c <= '9') || ('a' <= c && c <= 'f')
}

/// A well-formed session identifier: a 128-bit value rendered as 32 lowercase
/// hex digits, no separators.
pub open spec fn is_session_id(s: Seq<char>) -> bool {
    s.len() == 32 && forall|i: int| 0 <= i < s.len() ==> is_lower_hex_char(#[trigger] s[i])
}

/// Token payload shape (unused scaffold: no signing or verification is done).
pub struct UserToken {
    pub user: String,
    pub session: String,
    pub issued_at: i64,
    pub expire_at: i64,
}

impl UserToken {
    /// Relies on `uuid::Uuid::new_v4` and the `Simple` formatter: a fresh
    /// random 128-bit value rendered as exactly 32 lowercase hex digits.
    /// The value is random, so nothing is promised beyond its shape.
    #[verifier::external_body]
    pub fn new_session_id() -> (r: String)
        ensures
            is_session_id(r@),
    {
        uuid::Uuid::new_v4().as_simple().to_string()
    }
}

} // verus!
