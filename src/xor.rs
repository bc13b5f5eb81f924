use vstd::prelude::*;
use vstd::slice::slice_to_vec;
use vstd::string::*;
use vstd::utf8::*;

verus! {

/// The repeating-key XOR of `data` with `key`; an empty key leaves the data as it is.
pub open spec fn xor_spec(data: Seq<u8>, key: Seq<u8>) -> Seq<u8> {
    if key.len() == 0 {
        data
    } else {
        Seq::new(data.len(), |i: int| data[i] ^ key[i % (key.len() as int)])
    }
}

/// XORs each byte of `data` with the byte of `key`'s UTF-8 form at the same
/// position modulo the key's length. An empty key is the identity.
pub fn xor_transform(data: &[u8], key: &str) -> (out: Vec<u8>)
    ensures
        out@ == xor_spec(data@, encode_utf8(key@)),
{
    let key_bytes = key.as_bytes();
    let klen = key_bytes.len();
    if klen == 0 {
        return slice_to_vec(data);
    }
    let mut out: Vec<u8> = Vec::with_capacity(data.len());
    let mut i: usize = 0;
    while i < data.len()
        invariant
            klen == key_bytes@.len(),
            klen > 0,
            key_bytes@ == encode_utf8(key@),
            i <= data@.len(),
            out@.len() == i,
            forall|j: int| 0 <= j < i ==> out@[j] == data@[j] ^ key_bytes@[j % (klen as int)],
        decreases data.len() - i,
    {
        out.push(data[i] ^ key_bytes[i % klen]);
        i = i + 1;
    }
    assert(out@ =~= xor_spec(data@, encode_utf8(key@)));
    out
}

/// With an empty key the transform returns its input.
pub proof fn lemma_empty_key_identity(data: Seq<u8>)
    ensures
        xor_spec(data, Seq::empty()) == data,
{
}

/// Applying the transform twice with one key gives back the original bytes.
pub proof fn lemma_xor_self_inverse(data: Seq<u8>, key: Seq<u8>)
    ensures
        xor_spec(xor_spec(data, key), key) == data,
{
    if key.len() > 0 {
        let once = xor_spec(data, key);
        assert forall|i: int| 0 <= i < data.len() implies #[trigger] xor_spec(once, key)[i]
            == data[i] by {
            let a = data[i];
            let k = key[i % (key.len() as int)];
            assert((a ^ k) ^ k == a) by (bit_vector);
        }
        assert(xor_spec(once, key) =~= data);
    }
}

} // verus!
