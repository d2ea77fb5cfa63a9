//! The cryptographic primitives this library consumes, and the cipher suites
//! it knows.
use vstd::prelude::*;
use openmls_rust_crypto::{OpenMlsRustCrypto, RustCrypto};
use openmls_traits::crypto::OpenMlsCrypto;
use openmls_traits::random::OpenMlsRand;
use openmls_traits::types::{CryptoError, HashType, HpkeAeadType, HpkeConfig, HpkeKdfType, HpkeKemType};
use openmls_traits::OpenMlsCryptoProvider;
use rand::RngCore;

verus! {

/// Output length of the hash function (SHA-256) of every suite known here.
pub const HASH_LEN: usize = 32;

#[verifier::external_type_specification]
#[verifier::external_body]
pub struct ExCryptoError(CryptoError);

/// The cipher suites whose every primitive this library can run.
#[derive(Clone, Copy, Debug, PartialEq, Eq, Structural)]
pub enum Ciphersuite {
    /// MLS_128_DHKEMX25519_AES128GCM_SHA256_Ed25519
    X25519Aes128GcmSha256Ed25519,
    /// MLS_128_DHKEMX25519_CHACHA20POLY1305_SHA256_Ed25519
    X25519ChaCha20Poly1305Sha256Ed25519,
}

/// The suite registered under `id`, if this library supports it.
pub open spec fn suite_of(id: u16) -> Option<Ciphersuite> {
    if id == 1 {
        Some(Ciphersuite::X25519Aes128GcmSha256Ed25519)
    } else if id == 3 {
        Some(Ciphersuite::X25519ChaCha20Poly1305Sha256Ed25519)
    } else {
        None
    }
}

pub open spec fn suite_id(s: Ciphersuite) -> u16 {
    match s {
        Ciphersuite::X25519Aes128GcmSha256Ed25519 => 1,
        Ciphersuite::X25519ChaCha20Poly1305Sha256Ed25519 => 3,
    }
}

impl Ciphersuite {
    /// Looks up a suite by its registered identifier.
    pub fn from_id(id: u16) -> (r: Option<Ciphersuite>)
        ensures
            r == suite_of(id),
    {
        if id == 1 {
            Some(Ciphersuite::X25519Aes128GcmSha256Ed25519)
        } else if id == 3 {
            Some(Ciphersuite::X25519ChaCha20Poly1305Sha256Ed25519)
        } else {
            None
        }
    }

    /// The registered identifier of the suite.
    pub fn id(&self) -> (r: u16)
        ensures
            r == suite_id(*self),
            suite_of(r) == Some(*self),
    {
        match self {
            Ciphersuite::X25519Aes128GcmSha256Ed25519 => 1,
            Ciphersuite::X25519ChaCha20Poly1305Sha256Ed25519 => 3,
        }
    }

    /// Length of every secret of the key schedule under this suite.
    pub fn hash_length(&self) -> (r: usize)
        ensures
            r == HASH_LEN,
    {
        HASH_LEN
    }
}

/// HKDF-Extract with SHA-256 on (salt, input keying material).
pub uninterp spec fn extract_of(salt: Seq<u8>, ikm: Seq<u8>) -> Seq<u8>;

/// HKDF-Expand with SHA-256 on (pseudorandom key, info, output length).
pub uninterp spec fn expand_of(prk: Seq<u8>, info: Seq<u8>, len: nat) -> Seq<u8>;

/// The X25519 public key that HPKE's DeriveKeyPair makes from a seed.
pub uninterp spec fn x25519_public_of(ikm: Seq<u8>) -> Seq<u8>;

/// SHA-256 of a byte string.
pub uninterp spec fn sha256_of(data: Seq<u8>) -> Seq<u8>;

/// Relies on `RustCrypto::hash` of openmls_rust_crypto: with SHA-256 it always
/// succeeds and returns the 32-byte digest of its input.
#[verifier::external_body]
pub(crate) fn sha256(data: &[u8]) -> (r: Result<Vec<u8>, CryptoError>)
    ensures
        r is Ok,
        r is Ok ==> r->Ok_0@ == sha256_of(data@),
        r is Ok ==> r->Ok_0@.len() == HASH_LEN,
{
    RustCrypto::default().hash(HashType::Sha2_256, data)
}

/// Relies on `RustCrypto::hkdf_extract` of openmls_rust_crypto: with SHA-256 it
/// always succeeds and returns the 32-byte pseudorandom key, a function of its
/// inputs alone.
#[verifier::external_body]
pub(crate) fn hkdf_extract(salt: &[u8], ikm: &[u8]) -> (r: Result<Vec<u8>, CryptoError>)
    ensures
        r is Ok,
        r is Ok ==> r->Ok_0@ == extract_of(salt@, ikm@),
        r is Ok ==> r->Ok_0@.len() == HASH_LEN,
{
    RustCrypto::default().hkdf_extract(HashType::Sha2_256, salt, ikm)
}

/// Relies on `RustCrypto::hkdf_expand` of openmls_rust_crypto: with SHA-256 it
/// fails exactly when the key is shorter than 32 bytes or more than 255 blocks
/// are asked for, and otherwise returns `okm_len` bytes that depend on its
/// inputs alone.
#[verifier::external_body]
pub(crate) fn hkdf_expand(prk: &[u8], info: &[u8], okm_len: usize) -> (r: Result<Vec<u8>, CryptoError>)
    ensures
        r is Ok <==> (prk@.len() >= HASH_LEN && okm_len <= 255 * HASH_LEN),
        r is Ok ==> r->Ok_0@ == expand_of(prk@, info@, okm_len as nat),
        r is Ok ==> r->Ok_0@.len() == okm_len,
{
    RustCrypto::default().hkdf_expand(HashType::Sha2_256, prk, info, okm_len)
}

/// Relies on `RustCrypto::derive_hpke_keypair` of openmls_rust_crypto with the
/// X25519 KEM: the seed is expanded into a private key without rejection, so
/// it never fails; the public key depends on the seed alone and is an X25519
/// point, 32 bytes long.
#[verifier::external_body]
pub(crate) fn derive_x25519_public(ikm: &[u8]) -> (r: Vec<u8>)
    ensures
        r@ == x25519_public_of(ikm@),
        r@.len() == 32,
{
    let config = HpkeConfig(HpkeKemType::DhKem25519, HpkeKdfType::HkdfSha256, HpkeAeadType::AesGcm128);
    RustCrypto::default().derive_hpke_keypair(config, ikm).public
}

/// Relies on `OpenMlsRand::random_vec` of openmls_rust_crypto's provider: the
/// lock it takes is fresh, and filling from its ChaCha generator never fails,
/// so it always returns `len` bytes drawn from that generator.
#[verifier::external_body]
pub(crate) fn random_vec(len: usize) -> (r: Result<Vec<u8>, &'static str>)
    ensures
        r is Ok,
        r is Ok ==> r->Ok_0@.len() == len,
{
    OpenMlsRustCrypto::default().rand().random_vec(len)
}

/// Relies on `OsRng::next_u32` of rand: a number drawn from the operating
/// system's generator.
#[verifier::external_body]
pub(crate) fn os_random_u32() -> (r: u32)
{
    rand::rngs::OsRng.next_u32()
}

} // verus!
