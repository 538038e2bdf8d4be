//! Digest selection and computation: maps a supported hash algorithm to the
//! matching SHA-2 implementation and produces the fixed-length digest of a
//! message. The digests themselves are computed by the `sha2` crate.

use vstd::prelude::*;

use crate::algorithm::HashAlgorithm;
use crate::error::ToolErrorKind;

verus! {

/// The SHA-224 digest of a byte sequence; a function of the input alone.
pub uninterp spec fn sha224_of(data: Seq<u8>) -> Seq<u8>;

/// The SHA-256 digest of a byte sequence; a function of the input alone.
pub uninterp spec fn sha256_of(data: Seq<u8>) -> Seq<u8>;

/// The SHA-384 digest of a byte sequence; a function of the input alone.
pub uninterp spec fn sha384_of(data: Seq<u8>) -> Seq<u8>;

/// The SHA-512 digest of a byte sequence; a function of the input alone.
pub uninterp spec fn sha512_of(data: Seq<u8>) -> Seq<u8>;

/// Relies on sha2::Sha224 (Digest::digest): a 28-byte digest determined by
/// the input bytes alone.
#[verifier::external_body]
fn sha224(data: &[u8]) -> (r: Vec<u8>)
    ensures
        r@ == sha224_of(data@),
        r@.len() == 28,
{
    <sha2::Sha224 as sha2::Digest>::digest(data).to_vec()
}

/// Relies on sha2::Sha256 (Digest::digest): a 32-byte digest determined by
/// the input bytes alone.
#[verifier::external_body]
fn sha256(data: &[u8]) -> (r: Vec<u8>)
    ensures
        r@ == sha256_of(data@),
        r@.len() == 32,
{
    <sha2::Sha256 as sha2::Digest>::digest(data).to_vec()
}

/// Relies on sha2::Sha384 (Digest::digest): a 48-byte digest determined by
/// the input bytes alone.
#[verifier::external_body]
fn sha384(data: &[u8]) -> (r: Vec<u8>)
    ensures
        r@ == sha384_of(data@),
        r@.len() == 48,
{
    <sha2::Sha384 as sha2::Digest>::digest(data).to_vec()
}

/// Relies on sha2::Sha512 (Digest::digest): a 64-byte digest determined by
/// the input bytes alone.
#[verifier::external_body]
fn sha512(data: &[u8]) -> (r: Vec<u8>)
    ensures
        r@ == sha512_of(data@),
        r@.len() == 64,
{
    <sha2::Sha512 as sha2::Digest>::digest(data).to_vec()
}

/// Whether a hash algorithm belongs to the fixed supported set.
pub open spec fn supported_hash(alg: HashAlgorithm) -> bool {
    match alg {
        HashAlgorithm::Sha224
        | HashAlgorithm::Sha256
        | HashAlgorithm::Sha384
        | HashAlgorithm::Sha512 => true,
        _ => false,
    }
}

/// The digest length, in bytes, of a supported hash algorithm.
pub open spec fn digest_len(alg: HashAlgorithm) -> nat
    recommends
        supported_hash(alg),
{
    match alg {
        HashAlgorithm::Sha224 => 28,
        HashAlgorithm::Sha256 => 32,
        HashAlgorithm::Sha384 => 48,
        HashAlgorithm::Sha512 => 64,
        _ => 0,
    }
}

/// The digest of a byte sequence under a supported hash algorithm.
pub open spec fn spec_digest(alg: HashAlgorithm, data: Seq<u8>) -> Seq<u8>
    recommends
        supported_hash(alg),
{
    match alg {
        HashAlgorithm::Sha224 => sha224_of(data),
        HashAlgorithm::Sha256 => sha256_of(data),
        HashAlgorithm::Sha384 => sha384_of(data),
        HashAlgorithm::Sha512 => sha512_of(data),
        _ => Seq::empty(),
    }
}

/// Computes the digest of `data` under `alg`, selecting the implementation
/// that matches `alg` exactly among the fixed supported set. An algorithm
/// outside that set is rejected before any digest is computed.
pub fn hash_data(data: &[u8], alg: HashAlgorithm) -> (r: Result<Vec<u8>, ToolErrorKind>)
    ensures
        supported_hash(alg) ==> {
            &&& r is Ok
            &&& r.unwrap()@ == spec_digest(alg, data@)
            &&& r.unwrap()@.len() == digest_len(alg)
        },
        !supported_hash(alg) ==> r == Err::<Vec<u8>, ToolErrorKind>(ToolErrorKind::NotSupported),
{
    match alg {
        HashAlgorithm::Sha224 => Ok(sha224(data)),
        HashAlgorithm::Sha256 => Ok(sha256(data)),
        HashAlgorithm::Sha384 => Ok(sha384(data)),
        HashAlgorithm::Sha512 => Ok(sha512(data)),
        _ => Err(ToolErrorKind::NotSupported),
    }
}

} // verus!
