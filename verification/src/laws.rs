//! Laws that hold of every conforming backend, stated over the spec
//! functions the capability contracts promise and proved once for all
//! implementations.

use vstd::prelude::*;
use crate::crypto_types::CipherType;
use crate::crypto_types::DhType;
use crate::crypto_types::HashType;
use crate::kdf::hkdf1_of;
use crate::kdf::hkdf2_of;
use crate::kdf::hkdf_temp_of;
use crate::kdf::hmac_of;

verus! {

/// The MAC is a pure function of the algorithm identity, the key and the
/// data: two hash instances of the same algorithm assign every `(key, data)`
/// pair the same MAC, so repeated `hmac` calls reproduce the same bytes.
pub proof fn lemma_hmac_deterministic<H: HashType>(h1: &H, h2: &H, key: Seq<u8>, data: Seq<u8>)
    requires
        h1.digest_spec() == h2.digest_spec(),
        h1.block_len_spec() == h2.block_len_spec(),
    ensures
        hmac_of(h1.digest_spec(), h1.block_len_spec() as nat, key, data) == hmac_of(
            h2.digest_spec(),
            h2.block_len_spec() as nat,
            key,
            data,
        ),
{
}

/// A MAC has exactly the hash's output length.
pub proof fn lemma_hmac_len<H: HashType>(h: &H, key: Seq<u8>, data: Seq<u8>)
    ensures
        hmac_of(h.digest_spec(), h.block_len_spec() as nat, key, data).len()
            == h.hash_len_spec(),
{
    h.lemma_hash_laws();
}

/// Both HKDF outputs, and the temporary key they are drawn through, have
/// exactly the hash's output length.
pub proof fn lemma_hkdf_lens<H: HashType>(h: &H, chaining_key: Seq<u8>, input_key_material: Seq<u8>)
    ensures
        hkdf_temp_of(
            h.digest_spec(),
            h.block_len_spec() as nat,
            chaining_key,
            input_key_material,
        ).len() == h.hash_len_spec(),
        hkdf1_of(
            h.digest_spec(),
            h.block_len_spec() as nat,
            chaining_key,
            input_key_material,
        ).len() == h.hash_len_spec(),
        hkdf2_of(
            h.digest_spec(),
            h.block_len_spec() as nat,
            chaining_key,
            input_key_material,
        ).len() == h.hash_len_spec(),
{
    h.lemma_hash_laws();
}

/// Both HKDF outputs are pure functions of the algorithm identity, the
/// chaining key and the input key material: recomputing with identical
/// inputs yields byte-identical outputs.
pub proof fn lemma_hkdf_deterministic<H: HashType>(
    h1: &H,
    h2: &H,
    chaining_key: Seq<u8>,
    input_key_material: Seq<u8>,
)
    requires
        h1.digest_spec() == h2.digest_spec(),
        h1.block_len_spec() == h2.block_len_spec(),
    ensures
        hkdf1_of(h1.digest_spec(), h1.block_len_spec() as nat, chaining_key, input_key_material)
            == hkdf1_of(
            h2.digest_spec(),
            h2.block_len_spec() as nat,
            chaining_key,
            input_key_material,
        ),
        hkdf2_of(h1.digest_spec(), h1.block_len_spec() as nat, chaining_key, input_key_material)
            == hkdf2_of(
            h2.digest_spec(),
            h2.block_len_spec() as nat,
            chaining_key,
            input_key_material,
        ),
{
}

/// Round trip for any authenticated cipher: decrypting what `encrypt`
/// produced, under the same nonce and associated data, succeeds and returns
/// exactly the original plaintext.
pub proof fn lemma_aead_round_trip<C: CipherType>(c: &C, nonce: u64, authtext: Seq<u8>, plaintext: Seq<u8>)
    ensures
        (c.dec_spec())(nonce, authtext, (c.enc_spec())(nonce, authtext, plaintext))
            == Some(plaintext),
        (c.enc_spec())(nonce, authtext, plaintext).len() == plaintext.len()
            + c.tag_len_spec(),
{
    c.lemma_cipher_laws();
}

/// Shared-secret symmetry: when two instances of the same algorithm each
/// hold an honestly derived keypair, each side's shared secret — its own
/// private key combined with the other's public key — is the same.
pub proof fn lemma_dh_symmetry<D: DhType>(a: &D, b: &D)
    requires
        a.dh_of_spec() == b.dh_of_spec(),
        a.pub_of_spec() == b.pub_of_spec(),
        a.priv_len_spec() == b.priv_len_spec(),
        a.privkey_spec().len() == a.priv_len_spec(),
        b.privkey_spec().len() == b.priv_len_spec(),
        a.pubkey_spec() == (a.pub_of_spec())(a.privkey_spec()),
        b.pubkey_spec() == (b.pub_of_spec())(b.privkey_spec()),
    ensures
        (a.dh_of_spec())(a.privkey_spec(), b.pubkey_spec()) == (b.dh_of_spec())(
            b.privkey_spec(),
            a.pubkey_spec(),
        ),
{
    a.lemma_dh_laws();
    assert((a.dh_of_spec())(a.privkey_spec(), (a.pub_of_spec())(b.privkey_spec()))
        == (a.dh_of_spec())(b.privkey_spec(), (a.pub_of_spec())(a.privkey_spec())));
}

} // verus!
