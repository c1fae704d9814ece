//! Tests of the cipher, key-agreement and randomness contracts through
//! small self-contained backends: an XOR-keystream cipher with a keyed
//! checksum tag, and discrete-log key agreement in a small prime field.

use crypto_types::CipherType;
use crypto_types::DhType;
use crypto_types::RandomType;
use vstd::prelude::FnSpec;
use vstd::prelude::Seq;

/// A deterministic counter-based entropy source.
struct CounterRandom {
    state: u8,
}

impl RandomType for CounterRandom {
    fn fill_bytes(&mut self, out: &mut [u8]) {
        for b in out.iter_mut() {
            self.state = self.state.wrapping_add(0x9d);
            *b = self.state;
        }
    }
}

/// An XOR-keystream cipher with a 16-byte keyed checksum tag. Not secure;
/// it exercises the contract shape: ciphertext = body plus tag, tag covers
/// nonce, associated data and body.
struct XorCipher {
    key: [u8; 32],
}

impl XorCipher {
    fn new() -> Self {
        XorCipher { key: [0u8; 32] }
    }

    fn keystream_byte(&self, nonce: u64, i: usize) -> u8 {
        let n = nonce.to_le_bytes();
        self.key[i % 32].wrapping_add(n[i % 8]).wrapping_add(i as u8)
    }

    fn tag(&self, nonce: u64, authtext: &[u8], body: &[u8]) -> [u8; 16] {
        let mut t = [0u8; 16];
        let mut lane = 0usize;
        let mut mix = |t: &mut [u8; 16], byte: u8| {
            t[lane % 16] = t[lane % 16].wrapping_mul(31).wrapping_add(byte ^ self.key[lane % 32]);
            lane = lane.wrapping_add(1);
        };
        for &b in nonce.to_le_bytes().iter() {
            mix(&mut t, b);
        }
        for &b in authtext {
            mix(&mut t, b);
        }
        mix(&mut t, 0x5a);
        for &b in body {
            mix(&mut t, b);
        }
        t
    }
}

impl CipherType for XorCipher {
    // The ghost members of the contract exist only for the verifier; they
    // have no runtime meaning and are never called.
    fn name_spec(&self) -> Seq<u8> {
        unreachable!()
    }

    fn key_len_spec(&self) -> usize {
        unreachable!()
    }

    fn tag_len_spec(&self) -> usize {
        unreachable!()
    }

    fn key_spec(&self) -> Seq<u8> {
        unreachable!()
    }

    fn has_key(&self) -> bool {
        unreachable!()
    }

    fn enc_spec(&self) -> FnSpec<(u64, Seq<u8>, Seq<u8>), Seq<u8>> {
        unreachable!()
    }

    fn dec_spec(&self) -> FnSpec<(u64, Seq<u8>, Seq<u8>), Option<Seq<u8>>> {
        unreachable!()
    }

    fn lemma_cipher_laws(&self) {
        unreachable!()
    }

    fn name(&self, out: &mut [u8]) -> usize {
        let name = b"XorChecksum";
        out[..name.len()].copy_from_slice(name);
        name.len()
    }

    fn set(&mut self, key: &[u8]) {
        self.key.copy_from_slice(key);
    }

    fn encrypt(&self, nonce: u64, authtext: &[u8], plaintext: &[u8], out: &mut [u8]) {
        assert!(out.len() == plaintext.len() + 16);
        for (i, &p) in plaintext.iter().enumerate() {
            out[i] = p ^ self.keystream_byte(nonce, i);
        }
        let tag = self.tag(nonce, authtext, &out[..plaintext.len()]);
        out[plaintext.len()..].copy_from_slice(&tag);
    }

    fn decrypt(&self, nonce: u64, authtext: &[u8], ciphertext: &[u8], out: &mut [u8]) -> bool {
        let body_len = ciphertext.len() - 16;
        let expected = self.tag(nonce, authtext, &ciphertext[..body_len]);
        if ciphertext[body_len..] != expected {
            return false;
        }
        for i in 0..body_len {
            out[i] = ciphertext[i] ^ self.keystream_byte(nonce, i);
        }
        true
    }
}

const DH_PRIME: u64 = 65521;
const DH_GENERATOR: u64 = 17;

fn modpow(mut base: u64, mut exp: u64, modulus: u64) -> u64 {
    let mut acc: u64 = 1;
    base %= modulus;
    while exp > 0 {
        if exp & 1 == 1 {
            acc = acc * base % modulus;
        }
        base = base * base % modulus;
        exp >>= 1;
    }
    acc
}

/// Discrete-log key agreement in the multiplicative group mod a small
/// prime. Not secure; the group is honestly commutative, which is what the
/// symmetry law exercises.
struct ToyDh {
    private: u64,
    public_bytes: [u8; 8],
    loaded: bool,
}

impl ToyDh {
    fn new() -> Self {
        ToyDh { private: 0, public_bytes: [0u8; 8], loaded: false }
    }
}

impl DhType for ToyDh {
    // The ghost members of the contract exist only for the verifier; they
    // have no runtime meaning and are never called.
    fn name_spec(&self) -> Seq<u8> {
        unreachable!()
    }

    fn pub_len_spec(&self) -> usize {
        unreachable!()
    }

    fn priv_len_spec(&self) -> usize {
        unreachable!()
    }

    fn shared_len_spec(&self) -> usize {
        unreachable!()
    }

    fn pub_of_spec(&self) -> FnSpec<(Seq<u8>,), Seq<u8>> {
        unreachable!()
    }

    fn dh_of_spec(&self) -> FnSpec<(Seq<u8>, Seq<u8>), Seq<u8>> {
        unreachable!()
    }

    fn privkey_spec(&self) -> Seq<u8> {
        unreachable!()
    }

    fn pubkey_spec(&self) -> Seq<u8> {
        unreachable!()
    }

    fn has_key(&self) -> bool {
        unreachable!()
    }

    fn lemma_dh_laws(&self) {
        unreachable!()
    }

    fn name(&self, out: &mut [u8]) -> usize {
        let name = b"ToyDH";
        out[..name.len()].copy_from_slice(name);
        name.len()
    }

    fn pub_len(&self) -> usize {
        8
    }

    fn set(&mut self, privkey: &[u8], pubkey: &[u8]) {
        let mut p = [0u8; 8];
        p.copy_from_slice(privkey);
        self.private = u64::from_le_bytes(p);
        self.public_bytes.copy_from_slice(pubkey);
        self.loaded = true;
    }

    fn generate<R: RandomType>(&mut self, rng: &mut R) {
        let mut draw = [0u8; 8];
        rng.fill_bytes(&mut draw);
        // Keep the scalar in 1..DH_PRIME-1 so the keypair is nontrivial.
        self.private = u64::from_le_bytes(draw) % (DH_PRIME - 2) + 1;
        let public = modpow(DH_GENERATOR, self.private, DH_PRIME);
        self.public_bytes = public.to_le_bytes();
        self.loaded = true;
    }

    fn pubkey(&self) -> &[u8] {
        &self.public_bytes
    }

    fn dh(&self, pubkey: &[u8], out: &mut [u8]) {
        assert!(self.loaded);
        let mut p = [0u8; 8];
        p.copy_from_slice(pubkey);
        let peer = u64::from_le_bytes(p);
        let shared = modpow(peer, self.private, DH_PRIME);
        out[..8].copy_from_slice(&shared.to_le_bytes());
    }
}

#[test]
fn aead_round_trip() {
    let mut c = XorCipher::new();
    c.set(&[0x42u8; 32]);
    let plaintext = b"attack at dawn";
    let authtext = b"header";
    let nonce = 7u64;
    let mut ciphertext = vec![0u8; plaintext.len() + 16];
    c.encrypt(nonce, authtext, plaintext, &mut ciphertext);
    let mut recovered = vec![0u8; plaintext.len()];
    assert!(c.decrypt(nonce, authtext, &ciphertext, &mut recovered));
    assert_eq!(&recovered, plaintext);
}

#[test]
fn aead_empty_plaintext_round_trip() {
    let mut c = XorCipher::new();
    c.set(&[9u8; 32]);
    let mut ciphertext = vec![0u8; 16];
    c.encrypt(0, &[], &[], &mut ciphertext);
    let mut recovered: Vec<u8> = Vec::new();
    assert!(c.decrypt(0, &[], &ciphertext, &mut recovered));
    assert!(recovered.is_empty());
}

#[test]
fn aead_bit_flip_is_rejected() {
    let mut c = XorCipher::new();
    c.set(&[0x42u8; 32]);
    let plaintext = b"attack at dawn";
    let authtext = b"header";
    let nonce = 7u64;
    let mut ciphertext = vec![0u8; plaintext.len() + 16];
    c.encrypt(nonce, authtext, plaintext, &mut ciphertext);
    for bit in 0..ciphertext.len() * 8 {
        let mut tampered = ciphertext.clone();
        tampered[bit / 8] ^= 1 << (bit % 8);
        let mut sink = vec![0u8; plaintext.len()];
        assert!(!c.decrypt(nonce, authtext, &tampered, &mut sink));
    }
}

#[test]
fn aead_wrong_nonce_or_authtext_is_rejected() {
    let mut c = XorCipher::new();
    c.set(&[1u8; 32]);
    let mut ciphertext = vec![0u8; 5 + 16];
    c.encrypt(3, b"ad", b"hello", &mut ciphertext);
    let mut sink = vec![0u8; 5];
    assert!(!c.decrypt(4, b"ad", &ciphertext, &mut sink));
    assert!(!c.decrypt(3, b"da", &ciphertext, &mut sink));
}

#[test]
fn dh_shared_secret_symmetry() {
    let mut rng = CounterRandom { state: 0 };
    let mut a = ToyDh::new();
    let mut b = ToyDh::new();
    a.generate(&mut rng);
    b.generate(&mut rng);
    let mut secret_ab = [0u8; 8];
    let mut secret_ba = [0u8; 8];
    a.dh(b.pubkey(), &mut secret_ab);
    b.dh(a.pubkey(), &mut secret_ba);
    assert_eq!(secret_ab, secret_ba);
}

#[test]
fn dh_generate_twice_gives_distinct_keypairs() {
    let mut rng = CounterRandom { state: 0 };
    let mut a = ToyDh::new();
    a.generate(&mut rng);
    let first_pub: Vec<u8> = a.pubkey().to_vec();
    let first_priv = a.private;
    a.generate(&mut rng);
    assert_ne!(a.pubkey(), &first_pub[..]);
    assert_ne!(a.private, first_priv);
}

#[test]
fn dh_set_loads_explicit_keypair() {
    let mut a = ToyDh::new();
    let private = 1234u64;
    let public = modpow(DH_GENERATOR, private, DH_PRIME);
    a.set(&private.to_le_bytes(), &public.to_le_bytes());
    assert_eq!(a.pubkey(), &public.to_le_bytes());
    assert_eq!(a.pub_len(), 8);
}

#[test]
fn random_fill_zero_length_is_noop() {
    let mut rng = CounterRandom { state: 0 };
    let mut empty: [u8; 0] = [];
    rng.fill_bytes(&mut empty);
    let mut eight = [0u8; 8];
    rng.fill_bytes(&mut eight);
    assert_ne!(eight, [0u8; 8]);
}

#[test]
fn cipher_name_reports_byte_count() {
    let c = XorCipher::new();
    let mut buf = [0u8; 16];
    let n = c.name(&mut buf);
    assert_eq!(&buf[..n], b"XorChecksum");
    let d = ToyDh::new();
    let m = d.name(&mut buf);
    assert_eq!(&buf[..m], b"ToyDH");
}
