//! Capability contracts for the cryptographic primitives a secure-channel
//! protocol needs: randomness, Diffie-Hellman key agreement, authenticated
//! encryption, and hashing. Callers pick one concrete backend per capability;
//! everything above this layer works against the contracts alone.

use vstd::prelude::*;
use vstd::array::ref_mut_array_unsizing_coercion;
use vstd::slice::slice_subrange;
use crate::constants::MAXBLOCKLEN;
use crate::constants::MAXHASHLEN;
use crate::constants::MAXHASHLEN1;
use crate::kdf::IPAD;
use crate::kdf::OPAD;
use crate::kdf::hkdf1_of;
use crate::kdf::hkdf2_of;
use crate::kdf::hkdf_temp_of;
use crate::kdf::hmac_of;
use crate::kdf::xor_pad;

verus! {

/// Capability: a cryptographically secure source of random bytes.
pub trait RandomType {
    /// Fills the whole buffer with unpredictable bytes. Nothing can be
    /// promised of the values themselves; the buffer keeps its length.
    /// A zero-length buffer is a no-op.
    fn fill_bytes(&mut self, out: &mut [u8])
        ensures
            final(out)@.len() == old(out)@.len(),
    ;
}

/// Capability: Diffie-Hellman key agreement over some fixed group.
///
/// An instance owns at most one keypair, loaded with `set` or drawn fresh
/// with `generate`; either overwrites the previous one. The group identity —
/// name, key and secret lengths, the public-key derivation and the
/// shared-secret function — never changes; loading a keypair preserves it.
pub trait DhType {
    /// The algorithm's negotiation name, a short ASCII byte sequence.
    spec fn name_spec(&self) -> Seq<u8>;

    /// The fixed byte length of a public key.
    spec fn pub_len_spec(&self) -> usize;

    /// The fixed byte length of a private key.
    spec fn priv_len_spec(&self) -> usize;

    /// The fixed byte length of a shared secret.
    spec fn shared_len_spec(&self) -> usize;

    /// The derivation of a public key from a private key.
    spec fn pub_of_spec(&self) -> spec_fn(Seq<u8>) -> Seq<u8>;

    /// The shared secret as a function of own private key and peer public
    /// key.
    spec fn dh_of_spec(&self) -> spec_fn(Seq<u8>, Seq<u8>) -> Seq<u8>;

    /// The currently loaded private key.
    spec fn privkey_spec(&self) -> Seq<u8>;

    /// The currently loaded public key.
    spec fn pubkey_spec(&self) -> Seq<u8>;

    /// Whether a keypair has been loaded or generated.
    spec fn has_key(&self) -> bool;

    /// Group laws every conforming backend satisfies: derived public keys
    /// and shared secrets have their fixed lengths, and the shared secret is
    /// symmetric between two honestly derived keypairs.
    proof fn lemma_dh_laws(&self)
        ensures
            forall|p: Seq<u8>|
                (#[trigger] (self.pub_of_spec())(p)).len() == self.pub_len_spec(),
            forall|p: Seq<u8>, q: Seq<u8>|
                (#[trigger] (self.dh_of_spec())(p, q)).len() == self.shared_len_spec(),
            forall|p: Seq<u8>, q: Seq<u8>|
                p.len() == self.priv_len_spec() && q.len() == self.priv_len_spec()
                    ==> (#[trigger] (self.dh_of_spec())(p, (self.pub_of_spec())(q)))
                    == (self.dh_of_spec())(q, (self.pub_of_spec())(p)),
    ;

    /// Writes the algorithm name at the start of `out` and returns how many
    /// bytes were written; the rest of `out` is untouched.
    fn name(&self, out: &mut [u8]) -> (n: usize)
        requires
            self.name_spec().len() <= old(out)@.len(),
        ensures
            n == self.name_spec().len(),
            final(out)@.len() == old(out)@.len(),
            final(out)@.subrange(0, n as int) == self.name_spec(),
            final(out)@.skip(n as int) == old(out)@.skip(n as int),
    ;

    /// The fixed byte length of a public key.
    fn pub_len(&self) -> (n: usize)
        ensures
            n == self.pub_len_spec(),
    ;

    /// Loads an explicit keypair, overwriting any existing one. Both halves
    /// must have the algorithm's exact key lengths.
    fn set(&mut self, privkey: &[u8], pubkey: &[u8])
        requires
            privkey@.len() == old(self).priv_len_spec(),
            pubkey@.len() == old(self).pub_len_spec(),
        ensures
            final(self).name_spec() == old(self).name_spec(),
            final(self).pub_len_spec() == old(self).pub_len_spec(),
            final(self).priv_len_spec() == old(self).priv_len_spec(),
            final(self).shared_len_spec() == old(self).shared_len_spec(),
            final(self).pub_of_spec() == old(self).pub_of_spec(),
            final(self).dh_of_spec() == old(self).dh_of_spec(),
            final(self).has_key(),
            final(self).privkey_spec() == privkey@,
            final(self).pubkey_spec() == pubkey@,
    ;

    /// Draws a fresh private key from the given entropy source and derives
    /// the matching public key, overwriting any existing keypair. Which
    /// private key is drawn cannot be promised; that the public half is
    /// derived from the private half can.
    fn generate<R: RandomType>(&mut self, rng: &mut R)
        ensures
            final(self).name_spec() == old(self).name_spec(),
            final(self).pub_len_spec() == old(self).pub_len_spec(),
            final(self).priv_len_spec() == old(self).priv_len_spec(),
            final(self).shared_len_spec() == old(self).shared_len_spec(),
            final(self).pub_of_spec() == old(self).pub_of_spec(),
            final(self).dh_of_spec() == old(self).dh_of_spec(),
            final(self).has_key(),
            final(self).privkey_spec().len() == final(self).priv_len_spec(),
            final(self).pubkey_spec() == (final(self).pub_of_spec())(
                final(self).privkey_spec(),
            ),
    ;

    /// The current public key; meaningful only once a keypair exists.
    fn pubkey(&self) -> (r: &[u8])
        requires
            self.has_key(),
        ensures
            r@ == self.pubkey_spec(),
    ;

    /// Computes the shared secret between the own private key and the given
    /// peer public key into the first `shared_len` bytes of `out`; the rest
    /// of `out` is untouched. Deterministic in the two keys.
    fn dh(&self, pubkey: &[u8], out: &mut [u8])
        requires
            self.has_key(),
            pubkey@.len() == self.pub_len_spec(),
            self.shared_len_spec() <= old(out)@.len(),
        ensures
            final(out)@.len() == old(out)@.len(),
            final(out)@.subrange(0, self.shared_len_spec() as int)
                == (self.dh_of_spec())(self.privkey_spec(), pubkey@),
            final(out)@.skip(self.shared_len_spec() as int)
                == old(out)@.skip(self.shared_len_spec() as int),
    ;
}

/// Capability: authenticated encryption with associated data under a
/// symmetric key and a 64-bit nonce.
///
/// The cipher identity — name, key length, tag length — never changes;
/// loading a key preserves it, and determines the encryption and decryption
/// functions. Nonce uniqueness per key is the caller's obligation and is not
/// expressed here.
pub trait CipherType {
    /// The algorithm's negotiation name, a short ASCII byte sequence.
    spec fn name_spec(&self) -> Seq<u8>;

    /// The fixed byte length of a symmetric key.
    spec fn key_len_spec(&self) -> usize;

    /// The fixed byte length of the integrity tag appended to a ciphertext.
    spec fn tag_len_spec(&self) -> usize;

    /// The currently loaded key.
    spec fn key_spec(&self) -> Seq<u8>;

    /// Whether a key has been loaded.
    spec fn has_key(&self) -> bool;

    /// Ciphertext with tag as a function of nonce, associated data and
    /// plaintext, under the current key.
    spec fn enc_spec(&self) -> spec_fn(u64, Seq<u8>, Seq<u8>) -> Seq<u8>;

    /// The plaintext recovered from nonce, associated data and ciphertext
    /// under the current key, or `None` when the tag does not verify.
    spec fn dec_spec(&self) -> spec_fn(u64, Seq<u8>, Seq<u8>) -> Option<Seq<u8>>;

    /// Cipher laws every conforming backend satisfies: a ciphertext is
    /// exactly one tag longer than its plaintext, and decryption inverts
    /// encryption under the same nonce and associated data.
    proof fn lemma_cipher_laws(&self)
        ensures
            forall|n: u64, ad: Seq<u8>, pt: Seq<u8>|
                (#[trigger] (self.enc_spec())(n, ad, pt)).len() == pt.len()
                    + self.tag_len_spec(),
            forall|n: u64, ad: Seq<u8>, pt: Seq<u8>|
                (self.dec_spec())(n, ad, #[trigger] (self.enc_spec())(n, ad, pt))
                    == Some(pt),
    ;

    /// Writes the algorithm name at the start of `out` and returns how many
    /// bytes were written; the rest of `out` is untouched.
    fn name(&self, out: &mut [u8]) -> (n: usize)
        requires
            self.name_spec().len() <= old(out)@.len(),
        ensures
            n == self.name_spec().len(),
            final(out)@.len() == old(out)@.len(),
            final(out)@.subrange(0, n as int) == self.name_spec(),
            final(out)@.skip(n as int) == old(out)@.skip(n as int),
    ;

    /// Loads a symmetric key of the algorithm's exact key length,
    /// overwriting any previous one.
    fn set(&mut self, key: &[u8])
        requires
            key@.len() == old(self).key_len_spec(),
        ensures
            final(self).name_spec() == old(self).name_spec(),
            final(self).key_len_spec() == old(self).key_len_spec(),
            final(self).tag_len_spec() == old(self).tag_len_spec(),
            final(self).has_key(),
            final(self).key_spec() == key@,
    ;

    /// Encrypts and authenticates `plaintext`, also authenticating
    /// `authtext`, writing ciphertext plus tag into `out`, which must be
    /// sized to the plaintext length plus the tag length.
    fn encrypt(&self, nonce: u64, authtext: &[u8], plaintext: &[u8], out: &mut [u8])
        requires
            self.has_key(),
            old(out)@.len() == plaintext@.len() + self.tag_len_spec(),
        ensures
            final(out)@ == (self.enc_spec())(nonce, authtext@, plaintext@),
    ;

    /// Verifies the tag of `ciphertext` and, only on success, writes the
    /// plaintext into `out`, which must be sized to the ciphertext length
    /// minus the tag length. Returns whether verification succeeded; on
    /// failure the contents of `out` are unspecified and must not be used.
    fn decrypt(&self, nonce: u64, authtext: &[u8], ciphertext: &[u8], out: &mut [u8]) -> (ok:
        bool)
        requires
            self.has_key(),
            self.tag_len_spec() <= ciphertext@.len(),
            old(out)@.len() == ciphertext@.len() - self.tag_len_spec(),
        ensures
            final(out)@.len() == old(out)@.len(),
            ok == (self.dec_spec())(nonce, authtext@, ciphertext@) is Some,
            ok ==> (self.dec_spec())(nonce, authtext@, ciphertext@) == Some(final(out)@),
    ;
}

/// Capability: an incremental cryptographic hash function.
///
/// A backend is used through the sequence `reset`, any number of `input`
/// calls, then one `result`. `result` does not reset the accumulator: a fresh
/// `reset` is required before the instance is used again.
///
/// The algorithm identity — name, block length, output length and the digest
/// function itself — never changes; only the transient accumulator state
/// does. Each mutating operation states that preservation explicitly.
pub trait HashType {
    /// The algorithm's negotiation name, a short ASCII byte sequence.
    spec fn name_spec(&self) -> Seq<u8>;

    /// The hash's internal block length in bytes.
    spec fn block_len_spec(&self) -> usize;

    /// The hash's output length in bytes.
    spec fn hash_len_spec(&self) -> usize;

    /// The digest function of this algorithm, from a complete message to its
    /// digest.
    spec fn digest_spec(&self) -> spec_fn(Seq<u8>) -> Seq<u8>;

    /// The bytes fed to the accumulator since the last reset.
    spec fn acc(&self) -> Seq<u8>;

    /// Whether the accumulator is mid-stream: `reset` has been called, and
    /// `result` has not been called since.
    spec fn accumulating(&self) -> bool;

    /// Sizing laws every conforming backend satisfies: block and output
    /// lengths fit the global scratch bounds, a digest is never longer than
    /// a block (so a digest can in turn serve as an HMAC key), and every
    /// digest has exactly the output length.
    proof fn lemma_hash_laws(&self)
        ensures
            0 < self.block_len_spec() <= MAXBLOCKLEN,
            0 < self.hash_len_spec() <= MAXHASHLEN,
            self.hash_len_spec() <= self.block_len_spec(),
            forall|d: Seq<u8>|
                (#[trigger] (self.digest_spec())(d)).len() == self.hash_len_spec(),
    ;

    /// Writes the algorithm name at the start of `out` and returns how many
    /// bytes were written; the rest of `out` is untouched.
    fn name(&self, out: &mut [u8]) -> (n: usize)
        requires
            self.name_spec().len() <= old(out)@.len(),
        ensures
            n == self.name_spec().len(),
            final(out)@.len() == old(out)@.len(),
            final(out)@.subrange(0, n as int) == self.name_spec(),
            final(out)@.skip(n as int) == old(out)@.skip(n as int),
    ;

    /// The internal block length in bytes.
    fn block_len(&self) -> (n: usize)
        ensures
            n == self.block_len_spec(),
    ;

    /// The output length in bytes.
    fn hash_len(&self) -> (n: usize)
        ensures
            n == self.hash_len_spec(),
    ;

    /// Clears the accumulator; any previously fed input is discarded.
    fn reset(&mut self)
        ensures
            final(self).name_spec() == old(self).name_spec(),
            final(self).block_len_spec() == old(self).block_len_spec(),
            final(self).hash_len_spec() == old(self).hash_len_spec(),
            final(self).digest_spec() == old(self).digest_spec(),
            final(self).accumulating(),
            final(self).acc() == Seq::<u8>::empty(),
    ;

    /// Appends `data` to the accumulator.
    fn input(&mut self, data: &[u8])
        requires
            old(self).accumulating(),
        ensures
            final(self).name_spec() == old(self).name_spec(),
            final(self).block_len_spec() == old(self).block_len_spec(),
            final(self).hash_len_spec() == old(self).hash_len_spec(),
            final(self).digest_spec() == old(self).digest_spec(),
            final(self).accumulating(),
            final(self).acc() == old(self).acc() + data@,
    ;

    /// Finalizes the accumulator, writing the digest of everything fed since
    /// the last reset into the first `hash_len()` bytes of `out`; the rest of
    /// `out` is untouched. The accumulator is left finalized: nothing may be
    /// fed again until the next `reset`.
    fn result(&mut self, out: &mut [u8])
        requires
            old(self).accumulating(),
            old(self).hash_len_spec() <= old(out)@.len(),
        ensures
            final(self).name_spec() == old(self).name_spec(),
            final(self).block_len_spec() == old(self).block_len_spec(),
            final(self).hash_len_spec() == old(self).hash_len_spec(),
            final(self).digest_spec() == old(self).digest_spec(),
            final(out)@.len() == old(out)@.len(),
            final(out)@.subrange(0, old(self).hash_len_spec() as int)
                == (old(self).digest_spec())(old(self).acc()),
            final(out)@.skip(old(self).hash_len_spec() as int)
                == old(out)@.skip(old(self).hash_len_spec() as int),
    ;

    /// Computes the HMAC of `data` under `key` into the first `hash_len()`
    /// bytes of `out`; the rest of `out` is untouched. Any accumulator state
    /// left by earlier calls is discarded, and the accumulator is left
    /// finalized, so the MAC depends on `key` and `data` alone.
    fn hmac(&mut self, key: &[u8], data: &[u8], out: &mut [u8])
        requires
            key@.len() <= old(self).block_len_spec(),
            old(self).hash_len_spec() <= old(out)@.len(),
        ensures
            final(self).name_spec() == old(self).name_spec(),
            final(self).block_len_spec() == old(self).block_len_spec(),
            final(self).hash_len_spec() == old(self).hash_len_spec(),
            final(self).digest_spec() == old(self).digest_spec(),
            final(out)@.len() == old(out)@.len(),
            final(out)@.subrange(0, old(self).hash_len_spec() as int) == hmac_of(
                old(self).digest_spec(),
                old(self).block_len_spec() as nat,
                key@,
                data@,
            ),
            final(out)@.skip(old(self).hash_len_spec() as int)
                == old(out)@.skip(old(self).hash_len_spec() as int),
    {
        proof {
            self.lemma_hash_laws();
        }
        let block_len = self.block_len();
        let hash_len = self.hash_len();
        let mut i_pad: [u8; MAXBLOCKLEN] = [IPAD; MAXBLOCKLEN];
        let mut o_pad: [u8; MAXBLOCKLEN] = [OPAD; MAXBLOCKLEN];
        for count in 0..key.len()
            invariant
                key@.len() <= MAXBLOCKLEN,
                i_pad@.len() == MAXBLOCKLEN,
                o_pad@.len() == MAXBLOCKLEN,
                forall|j: int| 0 <= j < count ==> i_pad@[j] == (IPAD ^ key@[j]),
                forall|j: int| 0 <= j < count ==> o_pad@[j] == (OPAD ^ key@[j]),
                forall|j: int| count <= j < MAXBLOCKLEN ==> i_pad@[j] == IPAD,
                forall|j: int| count <= j < MAXBLOCKLEN ==> o_pad@[j] == OPAD,
        {
            let ki = key[count];
            let iv = i_pad[count];
            let ov = o_pad[count];
            i_pad[count] = iv ^ ki;
            o_pad[count] = ov ^ ki;
        }
        let ghost ipad_seq = i_pad@.subrange(0, block_len as int);
        let ghost opad_seq = o_pad@.subrange(0, block_len as int);
        proof {
            assert(ipad_seq =~= xor_pad(key@, IPAD, block_len as nat));
            assert(opad_seq =~= xor_pad(key@, OPAD, block_len as nat));
        }
        self.reset();
        self.input(slice_subrange(i_pad.as_slice(), 0, block_len));
        self.input(data);
        let mut inner_output: [u8; MAXHASHLEN] = [0u8; MAXHASHLEN];
        self.result(ref_mut_array_unsizing_coercion(&mut inner_output));
        let ghost inner = inner_output@.subrange(0, hash_len as int);
        proof {
            assert(Seq::<u8>::empty() + ipad_seq + data@ =~= ipad_seq + data@);
        }
        self.reset();
        self.input(slice_subrange(o_pad.as_slice(), 0, block_len));
        self.input(slice_subrange(inner_output.as_slice(), 0, hash_len));
        self.result(out);
        proof {
            assert(Seq::<u8>::empty() + opad_seq + inner =~= opad_seq + inner);
        }
    }

    /// Expands `(chaining_key, input_key_material)` into two fresh keys,
    /// writing each into the first `hash_len()` bytes of `out1` and `out2`
    /// respectively; the rest of each buffer is untouched. Like `hmac`, this
    /// discards any earlier accumulator state and is a pure function of its
    /// byte inputs.
    fn hkdf(&mut self, chaining_key: &[u8], input_key_material: &[u8], out1: &mut [u8], out2: &mut [u8])
        requires
            chaining_key@.len() <= old(self).block_len_spec(),
            old(self).hash_len_spec() <= old(out1)@.len(),
            old(self).hash_len_spec() <= old(out2)@.len(),
        ensures
            final(self).name_spec() == old(self).name_spec(),
            final(self).block_len_spec() == old(self).block_len_spec(),
            final(self).hash_len_spec() == old(self).hash_len_spec(),
            final(self).digest_spec() == old(self).digest_spec(),
            final(out1)@.len() == old(out1)@.len(),
            final(out2)@.len() == old(out2)@.len(),
            final(out1)@.subrange(0, old(self).hash_len_spec() as int) == hkdf1_of(
                old(self).digest_spec(),
                old(self).block_len_spec() as nat,
                chaining_key@,
                input_key_material@,
            ),
            final(out2)@.subrange(0, old(self).hash_len_spec() as int) == hkdf2_of(
                old(self).digest_spec(),
                old(self).block_len_spec() as nat,
                chaining_key@,
                input_key_material@,
            ),
            final(out1)@.skip(old(self).hash_len_spec() as int)
                == old(out1)@.skip(old(self).hash_len_spec() as int),
            final(out2)@.skip(old(self).hash_len_spec() as int)
                == old(out2)@.skip(old(self).hash_len_spec() as int),
    {
        proof {
            self.lemma_hash_laws();
        }
        let hash_len = self.hash_len();
        let mut temp_key: [u8; MAXHASHLEN] = [0u8; MAXHASHLEN];
        self.hmac(
            chaining_key,
            input_key_material,
            ref_mut_array_unsizing_coercion(&mut temp_key),
        );
        let temp_slice = slice_subrange(temp_key.as_slice(), 0, hash_len);
        let one: [u8; 1] = [0x01u8; 1];
        proof {
            assert(one@ =~= seq![0x01u8]);
        }
        self.hmac(temp_slice, one.as_slice(), out1);
        let mut in2: [u8; MAXHASHLEN1] = [0u8; MAXHASHLEN1];
        let mut i: usize = 0;
        while i < hash_len
            invariant
                i <= hash_len,
                hash_len <= MAXHASHLEN,
                hash_len <= out1@.len(),
                in2@.len() == MAXHASHLEN1,
                forall|j: int| 0 <= j < i ==> in2@[j] == out1@[j],
            decreases hash_len - i,
        {
            in2[i] = out1[i];
            i = i + 1;
        }
        in2[hash_len] = 0x02u8;
        let ghost msg2 = in2@.subrange(0, hash_len as int + 1);
        proof {
            assert(msg2 =~= out1@.subrange(0, hash_len as int) + seq![0x02u8]);
        }
        self.hmac(temp_slice, slice_subrange(in2.as_slice(), 0, hash_len + 1), out2);
    }
}

} // verus!
