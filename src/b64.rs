use base64::engine::general_purpose;
use base64::Engine;
use vstd::prelude::*;

verus! {

/// A failed base64 decode, carried through as it is.
#[verifier::external_type_specification]
#[verifier::external_body]
pub struct ExDecodeError(base64::DecodeError);

/// The padded standard-alphabet base64 text of a byte sequence.
pub uninterp spec fn base64_of(b: Seq<u8>) -> Seq<char>;

/// The 65 characters that padded standard base64 text is made of.
pub open spec fn is_base64_char(c: char) -> bool {
    ('A' <= c && c <= 'Z') || ('a' <= c && c <= 'z') || ('0' <= c && c <= '9') || c == '+'
        || c == '/' || c == '='
}

/// Relies on `base64::engine::general_purpose::STANDARD.encode`: the padded
/// encoding in the standard alphabet, written with its 64 symbols and `=`.
/// No other byte sequence has the same encoding.
#[verifier::external_body]
pub(crate) fn base64_encode(b: &[u8]) -> (r: String)
    ensures
        r@ == base64_of(b@),
        forall|i: int| 0 <= i < r@.len() ==> is_base64_char(#[trigger] r@[i]),
        forall|c: Seq<u8>| #[trigger] base64_of(c) == r@ ==> c == b@,
{
    general_purpose::STANDARD.encode(b)
}

/// Relies on `base64::engine::general_purpose::STANDARD.decode`, which requires
/// canonical padding and rejects non-zero trailing bits: it accepts exactly the
/// texts that `STANDARD.encode` writes, and returns the bytes they encode. Any
/// character outside the alphabet and `=` is an error.
#[verifier::external_body]
pub(crate) fn base64_decode(s: &str) -> (r: Result<Vec<u8>, base64::DecodeError>)
    ensures
        r is Ok ==> forall|i: int| 0 <= i < s@.len() ==> is_base64_char(#[trigger] s@[i]),
        r is Ok ==> base64_of(r->Ok_0@) == s@,
        forall|b: Seq<u8>| #[trigger] base64_of(b) == s@ ==> (r is Ok && r->Ok_0@ == b),
{
    general_purpose::STANDARD.decode(s)
}

} // verus!
