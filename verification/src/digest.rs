//! The SHA-1 digest under which the cache stores a script.
use vstd::prelude::*;

verus! {

/// The lowercase hexadecimal SHA-1 digest of the UTF-8 encoding of a text,
/// as the `sha1` crate renders it.
pub uninterp spec fn sha1_hex(text: Seq<char>) -> Seq<char>;

/// Whether a character is a lowercase hexadecimal digit.
pub open spec fn is_lower_hex(c: char) -> bool {
    ('0' <= c && c <= '9') || ('a' <= c && c <= 'f')
}

/// Calls `sha1::Sha1::new`, `update` with the text's bytes and `digest`,
/// and renders the digest with its `Display`.  Trusted: the result is the
/// named digest of the text; `Display` writes the five state words as
/// eight lowercase hex digits each, so it has 40 lowercase hex digits.
#[verifier::external_body]
pub fn sha1_hex_digest(text: &str) -> (r: String)
    ensures
        r@ == sha1_hex(text@),
        r@.len() == 40,
        forall|i: int| 0 <= i < 40 ==> #[trigger] is_lower_hex(r@[i]),
{
    let mut m = sha1::Sha1::new();
    m.update(text.as_bytes());
    m.digest().to_string()
}

} // verus!
