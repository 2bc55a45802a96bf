//! The per-packet pipeline: key derivation, authenticated encryption of encoded
//! messages, and compression of the IP packets that data messages carry.
use vstd::prelude::*;
use vstd::string::StringSliceAdditionalSpecFns;
use crate::message::{Message, MessageView, encodable, encode_message, parse_message, lemma_decode_encode, lemma_encode_decode};

verus! {

/// PBKDF2 iterations of the key derivation.
pub const PBKDF2_ITERATIONS: u32 = 1024;

/// Length of the PBKDF2 salt, whose bytes are all zero.
pub const SALT_LEN: usize = 64;

/// Length of an AES-256 key.
pub const KEY_LEN: usize = 32;

/// Length of an AES-GCM nonce.
pub const NONCE_LEN: usize = 12;

/// Length of the authentication tag that sealing appends.
pub const TAG_LEN: usize = 16;

/// The longest input that AES-GCM seals under one nonce: 2^32 - 2 blocks of 16 bytes.
pub const MAX_SEAL_INPUT: u64 = 68719476704;

/// The longest input that the Snappy codec takes.
pub const MAX_SNAPPY_INPUT: u64 = 4294967295;

/// The key that PBKDF2-HMAC-SHA256 derives (kept opaque: it is computed by ring).
pub uninterp spec fn pbkdf2_hmac_sha256_of(
    iterations: u32,
    salt: Seq<u8>,
    secret: Seq<u8>,
    len: usize,
) -> Seq<u8>;

/// The output of AES-256-GCM sealing (ciphertext followed by tag).
pub uninterp spec fn aes_256_gcm_seal_of(
    key: Seq<u8>,
    nonce: Seq<u8>,
    aad: Seq<u8>,
    plain: Seq<u8>,
) -> Seq<u8>;

/// The raw (unframed) Snappy compression of some bytes.
pub uninterp spec fn snappy_compress_of(input: Seq<u8>) -> Seq<u8>;

/// Whether `n` bytes can be compressed: Snappy's bound on the output,
/// `32 + n + n / 6`, must not exceed its largest input size.
pub open spec fn compressible_len(n: int) -> bool {
    32 + n + n / 6 <= MAX_SNAPPY_INPUT
}

/// Relies on `ring::pbkdf2::derive`: it fills an output of the requested length
/// with a value that depends on the algorithm and its arguments alone, and does
/// not fail for a nonzero iteration count, a short output and inputs of
/// ordinary size.
#[verifier::external_body]
fn pbkdf2_hmac_sha256(iterations: u32, salt: &[u8], secret: &[u8], len: usize) -> (r: Vec<u8>)
    requires
        iterations > 0,
        len <= 4096,
        salt@.len() <= u32::MAX,
        secret@.len() <= u32::MAX,
    ensures
        r@ == pbkdf2_hmac_sha256_of(iterations, salt@, secret@, len),
        r@.len() == len,
{
    let mut out = vec![0u8; len];
    let iterations = std::num::NonZeroU32::new(iterations).unwrap();
    ring::pbkdf2::derive(ring::pbkdf2::PBKDF2_HMAC_SHA256, iterations, salt, secret, &mut out);
    out
}

/// Relies on `ring::aead::LessSafeKey::seal_in_place_append_tag` with
/// `AES_256_GCM`: the ciphertext, as long as the input, followed by a 16-byte
/// tag; it fails only on a wrong key or nonce length or an input over the
/// algorithm's limit.
#[verifier::external_body]
fn aes_256_gcm_seal(key: &[u8], nonce: &[u8], aad: &[u8], plain: &[u8]) -> (r: Vec<u8>)
    requires
        key@.len() == KEY_LEN,
        nonce@.len() == NONCE_LEN,
        aad@.len() <= u32::MAX,
        plain@.len() <= MAX_SEAL_INPUT,
    ensures
        r@ == aes_256_gcm_seal_of(key@, nonce@, aad@, plain@),
        r@.len() == plain@.len() + TAG_LEN,
{
    let key = ring::aead::UnboundKey::new(&ring::aead::AES_256_GCM, key).unwrap();
    let key = ring::aead::LessSafeKey::new(key);
    let nonce = ring::aead::Nonce::try_assume_unique_for_key(nonce).unwrap();
    let mut out = plain.to_vec();
    key.seal_in_place_append_tag(nonce, ring::aead::Aad::from(aad), &mut out).unwrap();
    out
}

/// Relies on `ring::aead::LessSafeKey::open_in_place` with `AES_256_GCM`: it
/// authenticates and decrypts, so it succeeds on what sealing under the same
/// key, nonce and additional data produced, giving back the sealed input, and
/// whatever it accepts is the sealing of what it returns, which is within the
/// algorithm's input limit.
#[verifier::external_body]
fn aes_256_gcm_open(key: &[u8], nonce: &[u8], aad: &[u8], sealed: &[u8]) -> (r: Option<Vec<u8>>)
    requires
        key@.len() == KEY_LEN,
        nonce@.len() == NONCE_LEN,
        aad@.len() <= u32::MAX,
    ensures
        r is Some ==> sealed@ == aes_256_gcm_seal_of(key@, nonce@, aad@, r.unwrap()@),
        r is Some ==> r.unwrap()@.len() <= MAX_SEAL_INPUT,
        forall|p: Seq<u8>|
            p.len() <= MAX_SEAL_INPUT && sealed@ == #[trigger] aes_256_gcm_seal_of(
                key@,
                nonce@,
                aad@,
                p,
            ) ==> r is Some && r.unwrap()@ == p,
{
    let key = ring::aead::UnboundKey::new(&ring::aead::AES_256_GCM, key).unwrap();
    let key = ring::aead::LessSafeKey::new(key);
    let nonce = ring::aead::Nonce::try_assume_unique_for_key(nonce).unwrap();
    let mut buf = sealed.to_vec();
    match key.open_in_place(nonce, ring::aead::Aad::from(aad), &mut buf) {
        Ok(plain) => Some(plain.to_vec()),
        Err(_) => None,
    }
}

/// Relies on `snap::raw::Encoder::compress_vec`: it fails only when the input
/// or its bound `max_compress_len` exceeds the largest input size, and its
/// output is never longer than that bound.
#[verifier::external_body]
fn snappy_compress(input: &[u8]) -> (r: Vec<u8>)
    requires
        compressible_len(input@.len() as int),
    ensures
        r@ == snappy_compress_of(input@),
        r@.len() <= 32 + input@.len() + input@.len() / 6,
{
    snap::raw::Encoder::new().compress_vec(input).unwrap()
}

/// Relies on `snap::raw::Decoder::decompress_vec`: it gives back the input of
/// the compression that produced its argument; on other bytes it may fail.
#[verifier::external_body]
fn snappy_decompress(input: &[u8]) -> (r: Option<Vec<u8>>)
    ensures
        forall|p: Seq<u8>|
            compressible_len(p.len() as int) && input@ == #[trigger] snappy_compress_of(p) ==> r is Some
                && r.unwrap()@ == p,
{
    snap::raw::Decoder::new().decompress_vec(input).ok()
}

/// The salt of the key derivation: 64 zero bytes.
pub open spec fn kdf_salt() -> Seq<u8> {
    Seq::new(SALT_LEN as nat, |i: int| 0u8)
}

/// The nonce of every sealed datagram: 12 zero bytes.
pub open spec fn frame_nonce() -> Seq<u8> {
    Seq::new(NONCE_LEN as nat, |i: int| 0u8)
}

/// The additional authenticated data of every datagram: none.
pub open spec fn frame_aad() -> Seq<u8> {
    Seq::empty()
}

/// The key derived from a shared secret.
pub open spec fn derived_key(secret: Seq<u8>) -> Seq<u8> {
    pbkdf2_hmac_sha256_of(PBKDF2_ITERATIONS, kdf_salt(), secret, KEY_LEN)
}

/// Whether a message can be sealed: its encoding fits the AEAD's input limit.
pub open spec fn sealable(m: MessageView) -> bool {
    encodable(m) && encode_message(m).len() <= MAX_SEAL_INPUT
}

/// The datagram that carries the message `m` under `key`.
pub open spec fn sealed_datagram(key: Seq<u8>, m: MessageView) -> Seq<u8> {
    aes_256_gcm_seal_of(key, frame_nonce(), frame_aad(), encode_message(m))
}

fn zero_bytes(n: usize) -> (r: Vec<u8>)
    ensures
        r@ == Seq::new(n as nat, |i: int| 0u8),
{
    let mut v: Vec<u8> = Vec::new();
    let mut i: usize = 0;
    while i < n
        invariant
            i <= n,
            v@ == Seq::new(i as nat, |j: int| 0u8),
        decreases n - i,
    {
        v.push(0u8);
        i = i + 1;
        assert(v@ =~= Seq::new(i as nat, |j: int| 0u8));
    }
    v
}

/// Derives the AES-256 key from a shared secret with PBKDF2-HMAC-SHA256
/// (1024 iterations, a salt of 64 zero bytes).
pub fn derive_keys(password: &str) -> (r: Vec<u8>)
    requires
        password.spec_bytes().len() <= u32::MAX,
    ensures
        r@ == derived_key(password.spec_bytes()),
        r@.len() == KEY_LEN,
{
    let salt = zero_bytes(SALT_LEN);
    let secret = password.as_bytes();
    pbkdf2_hmac_sha256(PBKDF2_ITERATIONS, salt.as_slice(), secret, KEY_LEN)
}

/// The keyed pipeline that turns messages into datagrams and back.
pub struct Codec {
    key: Vec<u8>,
}

impl Codec {
    /// The AES-256 key.
    pub closed spec fn key(&self) -> Seq<u8> {
        self.key@
    }

    pub closed spec fn wf(&self) -> bool {
        self.key@.len() == KEY_LEN
    }

    /// The codec keyed by the key derived from `secret`.
    pub fn new(secret: &str) -> (r: Codec)
        requires
            secret.spec_bytes().len() <= u32::MAX,
        ensures
            r.wf(),
            r.key() == derived_key(secret.spec_bytes()),
    {
        Codec { key: derive_keys(secret) }
    }

    /// The datagram that carries `m`: its encoding, sealed with the zero nonce
    /// and no additional data.
    pub fn seal(&self, m: &Message) -> (r: Vec<u8>)
        requires
            self.wf(),
            sealable(m@),
        ensures
            r@ == sealed_datagram(self.key(), m@),
    {
        let plain = m.encode();
        let nonce = zero_bytes(NONCE_LEN);
        let aad: Vec<u8> = Vec::new();
        proof {
            assert(aad@ =~= frame_aad());
        }
        aes_256_gcm_seal(self.key.as_slice(), nonce.as_slice(), aad.as_slice(), plain.as_slice())
    }

    /// The message that the datagram `d` carries: `Some(m)` exactly when `d` is
    /// the sealed encoding of `m` under this codec's key.
    pub fn open(&self, d: &[u8]) -> (r: Option<Message>)
        requires
            self.wf(),
        ensures
            r matches Some(m) ==> sealable(m@) && d@ == sealed_datagram(self.key(), m@),
            forall|m: MessageView|
                sealable(m) && d@ == #[trigger] sealed_datagram(self.key(), m) ==> (r matches Some(
                    x,
                ) && x@ == m),
    {
        let nonce = zero_bytes(NONCE_LEN);
        let aad: Vec<u8> = Vec::new();
        proof {
            assert(aad@ =~= frame_aad());
        }
        let opened = aes_256_gcm_open(self.key.as_slice(), nonce.as_slice(), aad.as_slice(), d);
        proof {
            assert forall|m: MessageView|
                sealable(m) && d@ == #[trigger] sealed_datagram(self.key(), m) implies (
                opened matches Some(q) && q@ == encode_message(m)) by {
                assert(d@ == aes_256_gcm_seal_of(self.key@, nonce@, aad@, encode_message(m)));
            }
        }
        match opened {
            Some(plain) => {
                let r = Message::decode(plain.as_slice());
                proof {
                    if r is Some {
                        lemma_encode_decode(plain@, r.unwrap()@);
                    }
                    assert forall|m: MessageView|
                        sealable(m) && d@ == #[trigger] sealed_datagram(self.key(), m) implies (
                        r matches Some(x) && x@ == m) by {
                        lemma_decode_encode(m);
                    }
                }
                r
            },
            None => None,
        }
    }
}

/// Compresses an IP packet for a data message.
pub fn compress(p: &[u8]) -> (r: Vec<u8>)
    requires
        compressible_len(p@.len() as int),
    ensures
        r@ == snappy_compress_of(p@),
        r@.len() <= 32 + p@.len() + p@.len() / 6,
{
    snappy_compress(p)
}

/// Decompresses the payload of a data message; it gives back `p` for the
/// compression of any packet `p`.
pub fn decompress(c: &[u8]) -> (r: Option<Vec<u8>>)
    ensures
        forall|p: Seq<u8>|
            compressible_len(p.len() as int) && c@ == #[trigger] snappy_compress_of(p) ==> (
            r matches Some(q) && q@ == p),
{
    snappy_decompress(c)
}

} // verus!
