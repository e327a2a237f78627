//! Byte-oriented fixed-digest hash backends.
//!
//! These backends have no algorithm of their own: each one delegates to one
//! sponge instance of the `tiny_keccak` crate and is interesting only as an
//! implementer of the shared hashing interface.  The digest of each variant
//! is a pure function of the input bytes, named by an uninterpreted spec
//! function per variant.

use vstd::prelude::*;

verus! {

/// The Keccak-224 digest of a byte sequence.
pub uninterp spec fn keccak224_of(input: Seq<u8>) -> Seq<u8>;

/// The Keccak-256 digest of a byte sequence.
pub uninterp spec fn keccak256_of(input: Seq<u8>) -> Seq<u8>;

/// The Keccak-384 digest of a byte sequence.
pub uninterp spec fn keccak384_of(input: Seq<u8>) -> Seq<u8>;

/// The Keccak-512 digest of a byte sequence.
pub uninterp spec fn keccak512_of(input: Seq<u8>) -> Seq<u8>;

/// The SHA3-224 digest of a byte sequence.
pub uninterp spec fn sha3_224_of(input: Seq<u8>) -> Seq<u8>;

/// Relies on `tiny_keccak::Keccak::v224` with `update` and `finalize`: the
/// 28-byte digest depends on the input bytes alone.
#[verifier::external_body]
fn keccak224_digest(input: &[u8]) -> (r: Vec<u8>)
    ensures
        r@ == keccak224_of(input@),
        r@.len() == 28,
{
    let mut keccak = tiny_keccak::Keccak::v224();
    tiny_keccak::Hasher::update(&mut keccak, input);
    let mut output = [0u8; 28];
    tiny_keccak::Hasher::finalize(keccak, &mut output);
    output.to_vec()
}

/// Relies on `tiny_keccak::Keccak::v256` with `update` and `finalize`: the
/// 32-byte digest depends on the input bytes alone.
#[verifier::external_body]
pub(crate) fn keccak256_digest(input: &[u8]) -> (r: Vec<u8>)
    ensures
        r@ == keccak256_of(input@),
        r@.len() == 32,
{
    let mut keccak = tiny_keccak::Keccak::v256();
    tiny_keccak::Hasher::update(&mut keccak, input);
    let mut output = [0u8; 32];
    tiny_keccak::Hasher::finalize(keccak, &mut output);
    output.to_vec()
}

/// Relies on `tiny_keccak::Keccak::v384` with `update` and `finalize`: the
/// 48-byte digest depends on the input bytes alone.
#[verifier::external_body]
fn keccak384_digest(input: &[u8]) -> (r: Vec<u8>)
    ensures
        r@ == keccak384_of(input@),
        r@.len() == 48,
{
    let mut keccak = tiny_keccak::Keccak::v384();
    tiny_keccak::Hasher::update(&mut keccak, input);
    let mut output = [0u8; 48];
    tiny_keccak::Hasher::finalize(keccak, &mut output);
    output.to_vec()
}

/// Relies on `tiny_keccak::Keccak::v512` with `update` and `finalize`: the
/// 64-byte digest depends on the input bytes alone.
#[verifier::external_body]
fn keccak512_digest(input: &[u8]) -> (r: Vec<u8>)
    ensures
        r@ == keccak512_of(input@),
        r@.len() == 64,
{
    let mut keccak = tiny_keccak::Keccak::v512();
    tiny_keccak::Hasher::update(&mut keccak, input);
    let mut output = [0u8; 64];
    tiny_keccak::Hasher::finalize(keccak, &mut output);
    output.to_vec()
}

/// Relies on `tiny_keccak::Sha3::v224` with `update` and `finalize`: the
/// 28-byte digest depends on the input bytes alone.
#[verifier::external_body]
fn sha3_224_digest(input: &[u8]) -> (r: Vec<u8>)
    ensures
        r@ == sha3_224_of(input@),
        r@.len() == 28,
{
    let mut sha3 = tiny_keccak::Sha3::v224();
    tiny_keccak::Hasher::update(&mut sha3, input);
    let mut output = [0u8; 28];
    tiny_keccak::Hasher::finalize(sha3, &mut output);
    output.to_vec()
}

/// The interface shared by the fixed-digest byte-oriented backends.
pub trait CryptoHash {
    /// The digest this backend assigns to a byte sequence.
    spec fn spec_hash_bytes(&self, input: Seq<u8>) -> Seq<u8>;

    /// The byte length of every digest this backend produces.
    spec fn spec_digest_len(&self) -> nat;

    /// Hashes the input bytes into a digest of the backend's fixed length.
    fn hash_bytes(&self, input: &[u8]) -> (r: Vec<u8>)
        ensures
            r@ == self.spec_hash_bytes(input@),
            r@.len() == self.spec_digest_len(),
    ;
}

/// The Keccak-224 backend.
pub struct Keccak224;

/// The Keccak-256 backend.
pub struct Keccak256;

/// The Keccak-384 backend.
pub struct Keccak384;

/// The Keccak-512 backend.
pub struct Keccak512;

/// The SHA3-224 backend.
pub struct Sha3224;

impl CryptoHash for Keccak224 {
    open spec fn spec_hash_bytes(&self, input: Seq<u8>) -> Seq<u8> {
        keccak224_of(input)
    }

    open spec fn spec_digest_len(&self) -> nat {
        28
    }

    fn hash_bytes(&self, input: &[u8]) -> (r: Vec<u8>) {
        keccak224_digest(input)
    }
}

impl CryptoHash for Keccak256 {
    open spec fn spec_hash_bytes(&self, input: Seq<u8>) -> Seq<u8> {
        keccak256_of(input)
    }

    open spec fn spec_digest_len(&self) -> nat {
        32
    }

    fn hash_bytes(&self, input: &[u8]) -> (r: Vec<u8>) {
        keccak256_digest(input)
    }
}

impl CryptoHash for Keccak384 {
    open spec fn spec_hash_bytes(&self, input: Seq<u8>) -> Seq<u8> {
        keccak384_of(input)
    }

    open spec fn spec_digest_len(&self) -> nat {
        48
    }

    fn hash_bytes(&self, input: &[u8]) -> (r: Vec<u8>) {
        keccak384_digest(input)
    }
}

impl CryptoHash for Keccak512 {
    open spec fn spec_hash_bytes(&self, input: Seq<u8>) -> Seq<u8> {
        keccak512_of(input)
    }

    open spec fn spec_digest_len(&self) -> nat {
        64
    }

    fn hash_bytes(&self, input: &[u8]) -> (r: Vec<u8>) {
        keccak512_digest(input)
    }
}

impl CryptoHash for Sha3224 {
    open spec fn spec_hash_bytes(&self, input: Seq<u8>) -> Seq<u8> {
        sha3_224_of(input)
    }

    open spec fn spec_digest_len(&self) -> nat {
        28
    }

    fn hash_bytes(&self, input: &[u8]) -> (r: Vec<u8>) {
        sha3_224_digest(input)
    }
}

} // verus!
