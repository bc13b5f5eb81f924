use vstd::prelude::*;
use vstd::utf8::*;
use crate::b64::{base64_of, is_base64_char};
use crate::codec::{
    bom, decode_spec, is_base64_text, is_encoding_of, obfuscated_bytes, plain_bytes,
    starts_with_bom, strip_whitespace, lemma_strip_push, DecodeOutcome,
};
use crate::text::is_unicode_whitespace;
use crate::xor::lemma_xor_self_inverse;

verus! {

broadcast use {encode_utf8_valid_utf8, encode_utf8_decode_utf8};

/// Text made only of base64 symbols has no whitespace to remove.
proof fn lemma_strip_base64_text(s: Seq<char>)
    requires
        forall|i: int| 0 <= i < s.len() ==> is_base64_char(#[trigger] s[i]),
    ensures
        strip_whitespace(s) == s,
    decreases s.len(),
{
    reveal(Seq::filter);
    if s.len() > 0 {
        let init = s.drop_last();
        assert forall|i: int| 0 <= i < init.len() implies is_base64_char(#[trigger] init[i]) by {
            assert(init[i] == s[i]);
        }
        lemma_strip_base64_text(init);
        assert(is_base64_char(s[s.len() - 1]));
        assert(init.push(s.last()) =~= s);
    }
}

/// Decoding what encoding wrote, with the same key, gives back the text, and
/// reports a byte-order mark exactly when encoding added one. Where no mark
/// is added, the text's own UTF-8 form must not begin with one: decoding
/// would take it for the added mark.
pub proof fn lemma_round_trip(text: Seq<char>, key: Seq<char>, add_bom: bool, encoded: Seq<char>)
    requires
        is_encoding_of(encoded, obfuscated_bytes(text, key, add_bom)),
        add_bom || !starts_with_bom(encode_utf8(text)),
    ensures
        decode_spec(encoded, key) == (DecodeOutcome::Decoded { content: text, had_bom: add_bom }),
{
    let x = obfuscated_bytes(text, key, add_bom);
    lemma_strip_base64_text(encoded);
    assert(is_base64_text(encoded));
    let chosen = choose|b: Seq<u8>| base64_of(b) == encoded;
    assert(chosen == x);
    lemma_xor_self_inverse(plain_bytes(text, add_bom), encode_utf8(key));
    if add_bom {
        assert((bom() + encode_utf8(text)).skip(3) =~= encode_utf8(text));
    }
}

/// Removing whitespace before decoding means that two inputs that differ only
/// in whitespace decode alike.
pub proof fn lemma_whitespace_tolerance(a: Seq<char>, b: Seq<char>, key: Seq<char>)
    requires
        strip_whitespace(a) == strip_whitespace(b),
    ensures
        decode_spec(a, key) == decode_spec(b, key),
{
}

/// Inserting a whitespace character anywhere leaves what decoding reads unchanged.
pub proof fn lemma_insert_whitespace(s: Seq<char>, i: int, c: char)
    requires
        0 <= i <= s.len(),
        is_unicode_whitespace(c),
    ensures
        strip_whitespace(s.insert(i, c)) == strip_whitespace(s),
{
    broadcast use Seq::filter_distributes_over_add;

    reveal(Seq::filter);
    let pre = s.take(i);
    let post = s.skip(i);
    assert(s.insert(i, c) =~= pre + (seq![c] + post));
    assert(s =~= pre + post);
    assert(seq![c] =~= Seq::<char>::empty().push(c));
    lemma_strip_push(Seq::<char>::empty(), c);
    assert(strip_whitespace(seq![c] + post) == strip_whitespace(seq![c]) + strip_whitespace(post));
    assert(strip_whitespace(seq![c] + post) =~= strip_whitespace(post));
}

/// Input that holds a character which is neither whitespace nor a base64
/// symbol is rejected as malformed.
pub proof fn lemma_malformed_rejected(content: Seq<char>, key: Seq<char>, i: int)
    requires
        0 <= i < content.len(),
        !is_base64_char(content[i]),
        !is_unicode_whitespace(content[i]),
    ensures
        decode_spec(content, key) == DecodeOutcome::Malformed,
{
    broadcast use Seq::lemma_filter_contains;

    let clean = strip_whitespace(content);
    assert(clean.contains(content[i]));
    let j = choose|j: int| 0 <= j < clean.len() && clean[j] == content[i];
    assert(!is_base64_char(clean[j]));
    assert(!is_base64_text(clean));
}

} // verus!
