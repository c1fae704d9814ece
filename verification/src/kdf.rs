//! The mathematics of the key-derivation layer: the XOR-pad construction,
//! the two-pass HMAC formula, and the two-output HKDF expansion, all stated
//! over an arbitrary digest function. The [`crate::crypto_types::HashType`]
//! contracts promise these values of the executable `hmac` and `hkdf`
//! routines.

use vstd::prelude::*;

verus! {

/// The inner-pass HMAC pad byte.
pub const IPAD: u8 = 0x36;

/// The outer-pass HMAC pad byte.
pub const OPAD: u8 = 0x5c;

/// A block-length pad for HMAC: each of the first `key.len()` bytes is `pad`
/// XORed with the key byte; the remaining bytes are `pad` itself, which is
/// the implicit zero-padding of a key shorter than the block.
pub open spec fn xor_pad(key: Seq<u8>, pad: u8, block_len: nat) -> Seq<u8> {
    Seq::new(block_len, |i: int| if i < key.len() { pad ^ key[i] } else { pad })
}

/// The standard two-pass HMAC of `data` under `key`, for a hash with the
/// given digest function and block length: the inner pass hashes the inner
/// pad followed by the data, the outer pass hashes the outer pad followed by
/// the inner digest.
pub open spec fn hmac_of(
    digest: spec_fn(Seq<u8>) -> Seq<u8>,
    block_len: nat,
    key: Seq<u8>,
    data: Seq<u8>,
) -> Seq<u8> {
    digest(xor_pad(key, OPAD, block_len) + digest(xor_pad(key, IPAD, block_len) + data))
}

/// The temporary key the two-output HKDF expansion draws from the chaining
/// key and the fresh input key material.
pub open spec fn hkdf_temp_of(
    digest: spec_fn(Seq<u8>) -> Seq<u8>,
    block_len: nat,
    chaining_key: Seq<u8>,
    input_key_material: Seq<u8>,
) -> Seq<u8> {
    hmac_of(digest, block_len, chaining_key, input_key_material)
}

/// The first HKDF output: the MAC of the single byte `0x01` under the
/// temporary key.
pub open spec fn hkdf1_of(
    digest: spec_fn(Seq<u8>) -> Seq<u8>,
    block_len: nat,
    chaining_key: Seq<u8>,
    input_key_material: Seq<u8>,
) -> Seq<u8> {
    hmac_of(
        digest,
        block_len,
        hkdf_temp_of(digest, block_len, chaining_key, input_key_material),
        seq![0x01u8],
    )
}

/// The second HKDF output: the MAC of the first output followed by the byte
/// `0x02`, under the same temporary key.
pub open spec fn hkdf2_of(
    digest: spec_fn(Seq<u8>) -> Seq<u8>,
    block_len: nat,
    chaining_key: Seq<u8>,
    input_key_material: Seq<u8>,
) -> Seq<u8> {
    hmac_of(
        digest,
        block_len,
        hkdf_temp_of(digest, block_len, chaining_key, input_key_material),
        hkdf1_of(digest, block_len, chaining_key, input_key_material) + seq![0x02u8],
    )
}

} // verus!
