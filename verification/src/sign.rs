//! The signing operation itself. The remote service is consulted twice, by
//! the surrounding program: once to look up the key's permitted algorithm,
//! once to sign the digest. Everything decided between and after those calls
//! stands here: classifying the policy algorithm, extracting and checking its
//! hash requirement, computing the digest, re-encoding the raw signature, and
//! presenting the result as a base64 line.

use vstd::prelude::*;

use crate::algorithm::{Algorithm, AsymmetricSignature, SignHash};
use crate::asn1::{der_ecc_signature, encode_ecc_signature};
use crate::error::ToolErrorKind;
use crate::hash::{digest_len, hash_data, spec_digest, supported_hash};
use vstd::utf8::encode_utf8;

verus! {

/// The base64 encoding, standard alphabet with padding, of a byte sequence;
/// a function of the input bytes alone.
pub uninterp spec fn base64_of(data: Seq<u8>) -> Seq<char>;

/// Relies on base64::encode: the standard alphabet with padding, four output
/// characters for every whole or partial group of three input bytes.
#[verifier::external_body]
fn base64_encode(data: &[u8]) -> (r: String)
    ensures
        r@ == base64_of(data@),
        r@.len() == 4 * ((data@.len() + 2) / 3),
{
    base64::encode(data)
}

/// What the remote signing call needs, as resolved from the key's policy:
/// the digest of the input text and the permitted signature scheme.
pub struct SignRequest {
    /// The digest to be signed.
    pub digest: Vec<u8>,
    /// The asymmetric-signature scheme the key's policy permits.
    pub alg: AsymmetricSignature,
}

/// The sign operation's inputs: the name of the key to sign with, the UTF-8
/// text to sign, and whether an elliptic-curve signature is to be re-encoded
/// in ASN.1 form.
pub struct Sign {
    pub key_name: String,
    pub input_data: String,
    pub encode_asn1: bool,
}

impl Sign {
    /// Builds the operation's inputs.
    pub fn new(key_name: String, input_data: String, encode_asn1: bool) -> (r: Sign)
        ensures
            r.key_name == key_name,
            r.input_data == input_data,
            r.encode_asn1 == encode_asn1,
    {
        Sign { key_name, input_data, encode_asn1 }
    }

    /// Resolves the key's permitted algorithm into a signing request: the
    /// algorithm must be an asymmetric-signature scheme, else the key cannot
    /// sign at all; the scheme must name a specific, supported hash; and the
    /// digest of the input text under that hash is computed. Every failure
    /// is terminal and comes before any signing call could be made.
    pub fn prepare(&self, permitted: &Algorithm) -> (r: Result<SignRequest, ToolErrorKind>)
        ensures
            match *permitted {
                Algorithm::AsymmetricSignature(alg) => match alg.spec_hash() {
                    Some(SignHash::Specific(h)) => {
                        if supported_hash(h) {
                            &&& r is Ok
                            &&& r.unwrap().alg == alg
                            &&& r.unwrap().digest@ == spec_digest(
                                h,
                                encode_utf8(self.input_data@),
                            )
                            &&& r.unwrap().digest@.len() == digest_len(h)
                        } else {
                            r == Err::<SignRequest, ToolErrorKind>(ToolErrorKind::NotSupported)
                        }
                    },
                    _ => r == Err::<SignRequest, ToolErrorKind>(ToolErrorKind::NotSupported),
                },
                _ => r == Err::<SignRequest, ToolErrorKind>(ToolErrorKind::WrongKeyAlgorithm),
            },
    {
        match *permitted {
            Algorithm::AsymmetricSignature(alg) => match alg.hash() {
                Some(SignHash::Specific(h)) => {
                    let digest = match hash_data(self.input_data.as_str().as_bytes(), h) {
                        Ok(d) => d,
                        Err(e) => {
                            return Err(e);
                        },
                    };
                    Ok(SignRequest { digest, alg })
                },
                _ => Err(ToolErrorKind::NotSupported),
            },
            _ => Err(ToolErrorKind::WrongKeyAlgorithm),
        }
    }

    /// Post-processes the raw signature the service returned and presents it:
    /// re-encoded as the DER two-integer sequence exactly when ASN.1 form was
    /// asked for and the scheme is elliptic-curve, unchanged otherwise, then
    /// encoded as a base64 line.
    pub fn finish(&self, alg: &AsymmetricSignature, raw: Vec<u8>) -> (r: Result<
        String,
        ToolErrorKind,
    >)
        ensures
            !(self.encode_asn1 && alg.spec_is_ecc_alg()) ==> r is Ok && r.unwrap()@ == base64_of(
                raw@,
            ),
            self.encode_asn1 && alg.spec_is_ecc_alg() && raw@.len() % 2 == 0 ==> r is Ok
                && r.unwrap()@ == base64_of(
                der_ecc_signature(
                    raw@.subrange(0, raw@.len() as int / 2),
                    raw@.subrange(raw@.len() as int / 2, raw@.len() as int),
                ),
            ),
            self.encode_asn1 && alg.spec_is_ecc_alg() && raw@.len() % 2 != 0 ==> r == Err::<
                String,
                ToolErrorKind,
            >(ToolErrorKind::InternalEncodingError),
    {
        let sig = match reencode(raw, alg, self.encode_asn1) {
            Ok(s) => s,
            Err(e) => {
                return Err(e);
            },
        };
        Ok(present(sig.as_slice()))
    }
}

/// Re-encodes the raw signature as the DER two-integer sequence exactly when
/// ASN.1 form is wanted and the scheme is elliptic-curve; any other signature
/// is returned unchanged, whatever the flag. An elliptic-curve signature of
/// odd length cannot be split and is an internal encoding error.
pub fn reencode(raw: Vec<u8>, alg: &AsymmetricSignature, want_asn1: bool) -> (r: Result<
    Vec<u8>,
    ToolErrorKind,
>)
    ensures
        !(want_asn1 && alg.spec_is_ecc_alg()) ==> r is Ok && r.unwrap()@ == raw@,
        want_asn1 && alg.spec_is_ecc_alg() && raw@.len() % 2 == 0 ==> r is Ok && r.unwrap()@
            == der_ecc_signature(
            raw@.subrange(0, raw@.len() as int / 2),
            raw@.subrange(raw@.len() as int / 2, raw@.len() as int),
        ),
        want_asn1 && alg.spec_is_ecc_alg() && raw@.len() % 2 != 0 ==> r == Err::<
            Vec<u8>,
            ToolErrorKind,
        >(ToolErrorKind::InternalEncodingError),
{
    if want_asn1 && alg.is_ecc_alg() {
        encode_ecc_signature(raw.as_slice())
    } else {
        Ok(raw)
    }
}

/// Encodes the final signature bytes as the printable base64 line.
pub fn present(sig: &[u8]) -> (r: String)
    ensures
        r@ == base64_of(sig@),
{
    base64_encode(sig)
}

} // verus!
