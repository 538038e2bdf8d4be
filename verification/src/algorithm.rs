//! The library's own model of the PSA algorithm descriptors that a key's
//! policy stores: the hash algorithms, the asymmetric-signature schemes, and
//! the algorithm families. The surrounding program converts the service's
//! descriptor values into these before calling the library.

use vstd::prelude::*;

verus! {

/// A hash algorithm a key policy may name. Only the SHA-2 variants
/// `Sha224`, `Sha256`, `Sha384` and `Sha512` are supported for signing;
/// every other variant is a terminal, unsupported-input condition.
#[derive(Clone, Copy, Debug, PartialEq, Eq, Structural)]
pub enum HashAlgorithm {
    Md2,
    Md4,
    Md5,
    Ripemd160,
    Sha1,
    Sha224,
    Sha256,
    Sha384,
    Sha512,
    Sha512_224,
    Sha512_256,
    Sha3_224,
    Sha3_256,
    Sha3_384,
    Sha3_512,
}

/// The hash requirement carried by a hash-and-sign algorithm: either a
/// specific hash or a wildcard that admits any hash (valid only in policies,
/// never for performing an operation).
#[derive(Clone, Copy, Debug, PartialEq, Eq, Structural)]
pub enum SignHash {
    Specific(HashAlgorithm),
    Any,
}

/// An asymmetric-signature scheme.
#[derive(Clone, Copy, Debug, PartialEq, Eq, Structural)]
pub enum AsymmetricSignature {
    RsaPkcs1v15Sign { hash_alg: SignHash },
    RsaPkcs1v15SignRaw,
    RsaPss { hash_alg: SignHash },
    Ecdsa { hash_alg: SignHash },
    EcdsaAny,
    DeterministicEcdsa { hash_alg: SignHash },
}

/// The algorithm families a key policy can permit. Only the
/// asymmetric-signature family can be used for signing; the others carry no
/// payload here because the signing logic reads nothing inside them.
#[derive(Clone, Copy, Debug, PartialEq, Eq, Structural)]
pub enum Algorithm {
    NoAlgorithm,
    Hash,
    Mac,
    Cipher,
    Aead,
    AsymmetricSignature(AsymmetricSignature),
    AsymmetricEncryption,
    KeyAgreement,
    KeyDerivation,
}

impl AsymmetricSignature {
    /// The hash requirement of the scheme, or `None` for the schemes that
    /// sign a caller-provided value directly.
    pub open spec fn spec_hash(self) -> Option<SignHash> {
        match self {
            AsymmetricSignature::EcdsaAny | AsymmetricSignature::RsaPkcs1v15SignRaw => None,
            AsymmetricSignature::RsaPkcs1v15Sign { hash_alg }
            | AsymmetricSignature::RsaPss { hash_alg }
            | AsymmetricSignature::Ecdsa { hash_alg }
            | AsymmetricSignature::DeterministicEcdsa { hash_alg } => Some(hash_alg),
        }
    }

    /// The hash requirement of the scheme (executable form).
    pub fn hash(&self) -> (r: Option<SignHash>)
        ensures
            r == self.spec_hash(),
    {
        match *self {
            AsymmetricSignature::EcdsaAny | AsymmetricSignature::RsaPkcs1v15SignRaw => None,
            AsymmetricSignature::RsaPkcs1v15Sign { hash_alg }
            | AsymmetricSignature::RsaPss { hash_alg }
            | AsymmetricSignature::Ecdsa { hash_alg }
            | AsymmetricSignature::DeterministicEcdsa { hash_alg } => Some(hash_alg),
        }
    }

    /// Whether the scheme is an elliptic-curve scheme, whose raw signatures
    /// are the concatenation of the two integers R and S.
    pub open spec fn spec_is_ecc_alg(self) -> bool {
        match self {
            AsymmetricSignature::Ecdsa { .. }
            | AsymmetricSignature::EcdsaAny
            | AsymmetricSignature::DeterministicEcdsa { .. } => true,
            _ => false,
        }
    }

    /// Whether the scheme is an elliptic-curve scheme (executable form).
    pub fn is_ecc_alg(&self) -> (r: bool)
        ensures
            r == self.spec_is_ecc_alg(),
    {
        match *self {
            AsymmetricSignature::Ecdsa { .. }
            | AsymmetricSignature::EcdsaAny
            | AsymmetricSignature::DeterministicEcdsa { .. } => true,
            _ => false,
        }
    }
}

} // verus!
