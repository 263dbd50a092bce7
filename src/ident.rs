//! Identifiers: short tokens drawn at random from a URL-safe alphabet.
use vstd::prelude::*;

verus! {

/// Number of characters in an identifier.
pub const ID_LEN: usize = 10;

/// The characters an identifier is made of: ASCII letters, digits, `_` and `-`.
pub open spec fn is_id_char(c: char) -> bool {
    ('a' <= c && c <= 'z') || ('A' <= c && c <= 'Z') || ('0' <= c && c <= '9') || c == '_' || c
        == '-'
}

/// `s` has `len` characters, all of them identifier characters.
pub open spec fn is_token_of_len(s: Seq<char>, len: nat) -> bool {
    &&& s.len() == len
    &&& forall|i: int| 0 <= i < s.len() ==> is_id_char(#[trigger] s[i])
}

/// The shape of every identifier this library hands out.
pub open spec fn is_identifier(s: Seq<char>) -> bool {
    is_token_of_len(s, ID_LEN as nat)
}

/// Relies on nanoid::format with nanoid::alphabet::SAFE and nanoid::rngs::default
/// (an entropy-seeded generator): it returns `size` characters, each taken from
/// that alphabet. It never returns for a size of zero, and computes `8 * size`
/// without a check on overflow. Its generator panics if the operating system
/// cannot supply entropy.
#[verifier::external_body]
fn random_token(size: usize) -> (r: String)
    requires
        0 < size <= usize::MAX / 8,
    ensures
        is_token_of_len(r@, size as nat),
{
    nanoid::format(nanoid::rngs::default, &nanoid::alphabet::SAFE, size)
}

/// Draws a fresh, unguessable identifier.
pub fn new_identifier() -> (r: String)
    ensures
        is_identifier(r@),
{
    random_token(ID_LEN)
}

} // verus!
