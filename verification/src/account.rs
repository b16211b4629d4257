//! Account identifiers.

use vstd::prelude::*;

verus! {

/// Shortest account identifier, in bytes.
pub const MIN_ACCOUNT_ID_LEN: usize = 2;

/// Longest account identifier, in bytes.
pub const MAX_ACCOUNT_ID_LEN: usize = 64;

/// `-`, `_` or `.`, the bytes that separate the parts of an identifier.
pub open spec fn is_separator(c: u8) -> bool {
    c == 0x2d || c == 0x5f || c == 0x2e
}

/// A lower-case ASCII letter or a digit.
pub open spec fn is_lower_alphanumeric(c: u8) -> bool {
    (0x61 <= c <= 0x7a) || (0x30 <= c <= 0x39)
}

/// Whether `id` is a well-formed account identifier: between 2 and 64 bytes,
/// each a lower-case letter, a digit or a separator, with no separator at
/// either end and no two separators side by side.
pub open spec fn valid_account_id(id: Seq<u8>) -> bool {
    &&& MIN_ACCOUNT_ID_LEN <= id.len() <= MAX_ACCOUNT_ID_LEN
    &&& forall|i: int| 0 <= i < id.len() ==> is_lower_alphanumeric(id[i]) || is_separator(id[i])
    &&& !is_separator(id.first())
    &&& !is_separator(id.last())
    &&& forall|i: int|
        0 <= i < id.len() - 1 ==> !(is_separator(#[trigger] id[i]) && is_separator(id[i + 1]))
}

/// `near_sdk::env::is_valid_account_id`, unverified. Its source checks the
/// length against the bounds 2 and 64, then walks the bytes once: a byte
/// outside `a-z`, `0-9`, `-`, `_`, `.` fails, a separator that follows a
/// separator or opens the identifier fails, and so does a separator at the
/// end. The contract states that as [`valid_account_id`].
#[verifier::external_body]
pub(crate) fn is_valid_account_id(id: &[u8]) -> (r: bool)
    ensures
        r == valid_account_id(id@),
{
    near_sdk::env::is_valid_account_id(id)
}

/// Whether the UTF-8 bytes of `id` form a well-formed account identifier.
pub fn is_account_id(id: &str) -> (r: bool)
    ensures
        r == valid_account_id(vstd::utf8::encode_utf8(id@)),
{
    is_valid_account_id(id.as_bytes())
}

} // verus!
