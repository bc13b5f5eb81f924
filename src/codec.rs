use vstd::prelude::*;
use vstd::string::*;
use vstd::utf8::*;
use crate::b64::{base64_decode, base64_encode, base64_of, is_base64_char};
use crate::text::{is_unicode_whitespace, is_whitespace, push_char, string_from_utf8};
use crate::xor::{xor_spec, xor_transform};

verus! {

/// The UTF-8 byte-order mark.
pub open spec fn bom() -> Seq<u8> {
    seq![0xEFu8, 0xBBu8, 0xBFu8]
}

/// Whether `b` begins with the byte-order mark.
pub open spec fn starts_with_bom(b: Seq<u8>) -> bool {
    b.len() >= 3 && b[0] == 0xEFu8 && b[1] == 0xBBu8 && b[2] == 0xBFu8
}

/// The plain bytes that encoding obfuscates: the text's UTF-8 form, after the
/// byte-order mark when one is asked for.
pub open spec fn plain_bytes(content: Seq<char>, add_bom: bool) -> Seq<u8> {
    if add_bom {
        bom() + encode_utf8(content)
    } else {
        encode_utf8(content)
    }
}

/// The obfuscated bytes that `encode_content` writes as base64.
pub open spec fn obfuscated_bytes(content: Seq<char>, key: Seq<char>, add_bom: bool) -> Seq<u8> {
    xor_spec(plain_bytes(content, add_bom), encode_utf8(key))
}

/// `e` is the base64 text of `b`: written in the base64 alphabet, and the
/// encoding of no other bytes.
pub open spec fn is_encoding_of(e: Seq<char>, b: Seq<u8>) -> bool {
    &&& e == base64_of(b)
    &&& forall|i: int| 0 <= i < e.len() ==> is_base64_char(#[trigger] e[i])
    &&& forall|c: Seq<u8>| #[trigger] base64_of(c) == e ==> c == b
}

/// A successful decode: the recovered text, and whether a byte-order mark was
/// found in front of it and removed.
#[derive(Debug)]
pub struct DecodeResult {
    pub content: String,
    pub had_bom: bool,
}

/// Why a decode failed.
#[derive(Debug)]
pub enum CodecError {
    /// The input, once whitespace is removed, is not padded standard base64.
    Malformed(base64::DecodeError),
    /// The de-obfuscated bytes are not UTF-8: most often the key was wrong.
    InvalidText(std::string::FromUtf8Error),
}

/// The meaning of a decode, without the detail that the errors carry.
pub enum DecodeOutcome {
    Decoded { content: Seq<char>, had_bom: bool },
    Malformed,
    InvalidText,
}

/// The outcome that a result of `decode_content` stands for.
pub open spec fn outcome_of(r: Result<DecodeResult, CodecError>) -> DecodeOutcome {
    match r {
        Ok(d) => DecodeOutcome::Decoded { content: d.content@, had_bom: d.had_bom },
        Err(CodecError::Malformed(_)) => DecodeOutcome::Malformed,
        Err(CodecError::InvalidText(_)) => DecodeOutcome::InvalidText,
    }
}

/// Encodes `content`: its UTF-8 bytes, with a byte-order mark in front when
/// `add_bom` holds, XORed with the key's bytes, written as padded standard base64.
pub fn encode_content(content: String, key: String, add_bom: bool) -> (r: String)
    ensures
        is_encoding_of(r@, obfuscated_bytes(content@, key@, add_bom)),
{
    let text: &[u8] = content.as_str().as_bytes();
    let mut bytes: Vec<u8> = if add_bom {
        vec![0xEFu8, 0xBBu8, 0xBFu8]
    } else {
        Vec::new()
    };
    let ghost start = bytes@;
    let mut i: usize = 0;
    while i < text.len()
        invariant
            i <= text@.len(),
            bytes@ == start + text@.take(i as int),
        decreases text.len() - i,
    {
        bytes.push(text[i]);
        i = i + 1;
        assert(bytes@ =~= start + text@.take(i as int));
    }
    assert(text@.take(text@.len() as int) =~= text@);
    assert(bytes@ =~= plain_bytes(content@, add_bom));
    let xored = xor_transform(bytes.as_slice(), key.as_str());
    base64_encode(xored.as_slice())
}

/// The characters of `s` that are not whitespace, in order.
pub open spec fn strip_whitespace(s: Seq<char>) -> Seq<char> {
    s.filter(|c: char| !is_unicode_whitespace(c))
}

/// Whether `s` is padded standard base64 text: written in the base64
/// alphabet, and the encoding of some bytes.
pub open spec fn is_base64_text(s: Seq<char>) -> bool {
    &&& forall|i: int| 0 <= i < s.len() ==> is_base64_char(#[trigger] s[i])
    &&& exists|b: Seq<u8>| base64_of(b) == s
}

/// The bytes that base64 text `s` encodes.
pub open spec fn base64_bytes(s: Seq<char>) -> Seq<u8>
    recommends
        is_base64_text(s),
{
    choose|b: Seq<u8>| base64_of(b) == s
}

/// `b` without its leading byte-order mark, if it has one.
pub open spec fn without_bom(b: Seq<u8>) -> Seq<u8> {
    if starts_with_bom(b) {
        b.skip(3)
    } else {
        b
    }
}

/// What `decode_content` returns: whitespace is removed, the rest is read as
/// base64, XORed with the key's bytes, stripped of one leading byte-order mark
/// and read as UTF-8.
pub open spec fn decode_spec(content: Seq<char>, key: Seq<char>) -> DecodeOutcome {
    let clean = strip_whitespace(content);
    if !is_base64_text(clean) {
        DecodeOutcome::Malformed
    } else {
        let plain = xor_spec(base64_bytes(clean), encode_utf8(key));
        let body = without_bom(plain);
        if valid_utf8(body) {
            DecodeOutcome::Decoded { content: decode_utf8(body), had_bom: starts_with_bom(plain) }
        } else {
            DecodeOutcome::InvalidText
        }
    }
}

/// Removing whitespace from a sequence extended by one character.
pub(crate) proof fn lemma_strip_push(s: Seq<char>, c: char)
    ensures
        strip_whitespace(s.push(c)) == if is_unicode_whitespace(c) {
            strip_whitespace(s)
        } else {
            strip_whitespace(s).push(c)
        },
{
    reveal(Seq::filter);
    assert(s.push(c).drop_last() =~= s);
}

/// Removes every whitespace character from `content`.
fn remove_whitespace(content: &str) -> (r: String)
    ensures
        r@ == strip_whitespace(content@),
{
    let mut clean = String::new();
    for c in it: content.chars()
        invariant
            it.seq() == content@,
            clean@ == strip_whitespace(it.seq().take(it.index() as int)),
    {
        proof {
            lemma_strip_push(it.seq().take(it.index() as int), c);
            assert(it.seq().take(it.index() as int).push(c) =~= it.seq().take(it.index() + 1));
        }
        if !is_whitespace(c) {
            push_char(&mut clean, c);
        }
    }
    assert(content@.take(content@.len() as int) =~= content@);
    clean
}

/// Decodes `content`: whitespace is removed, the rest is read as padded
/// standard base64, XORed with the key's bytes, stripped of a leading
/// byte-order mark (reported in `had_bom`) and read as UTF-8.
pub fn decode_content(content: String, key: String) -> (r: Result<DecodeResult, CodecError>)
    ensures
        outcome_of(r) == decode_spec(content@, key@),
{
    let clean = remove_whitespace(content.as_str());
    let bytes = match base64_decode(clean.as_str()) {
        Ok(v) => v,
        Err(e) => {
            return Err(CodecError::Malformed(e));
        },
    };
    assert(is_base64_text(clean@));
    assert(bytes@ == base64_bytes(clean@));
    let mut plain = xor_transform(bytes.as_slice(), key.as_str());
    let ghost whole = plain@;
    let had_bom = plain.len() >= 3 && plain[0] == 0xEFu8 && plain[1] == 0xBBu8 && plain[2]
        == 0xBFu8;
    let start: usize = if had_bom {
        3
    } else {
        0
    };
    let body = plain.split_off(start);
    assert(body@ =~= without_bom(whole));
    match string_from_utf8(body) {
        Ok(s) => Ok(DecodeResult { content: s, had_bom }),
        Err(e) => Err(CodecError::InvalidText(e)),
    }
}

} // verus!
