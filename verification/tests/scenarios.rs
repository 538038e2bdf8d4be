use parsec_tool::algorithm::{Algorithm, AsymmetricSignature, HashAlgorithm, SignHash};
use parsec_tool::asn1::decode_ecc_signature;
use parsec_tool::error::ToolErrorKind;
use parsec_tool::sign::Sign;

fn hex(s: &str) -> Vec<u8> {
    let b = s.as_bytes();
    let val = |c: u8| -> u8 {
        match c {
            b'0'..=b'9' => c - b'0',
            b'a'..=b'f' => c - b'a' + 10,
            _ => panic!("not a hex digit"),
        }
    };
    let mut out = Vec::new();
    let mut i = 0;
    while i < b.len() {
        out.push(val(b[i]) * 16 + val(b[i + 1]));
        i += 2;
    }
    out
}

#[test]
fn wrong_key_algorithm_families() {
    let sign = Sign::new("key".to_string(), "payload".to_string(), false);
    for family in [
        Algorithm::NoAlgorithm,
        Algorithm::Hash,
        Algorithm::Mac,
        Algorithm::Cipher,
        Algorithm::Aead,
        Algorithm::AsymmetricEncryption,
        Algorithm::KeyAgreement,
        Algorithm::KeyDerivation,
    ] {
        match sign.prepare(&family) {
            Err(e) => assert_eq!(e, ToolErrorKind::WrongKeyAlgorithm),
            Ok(_) => panic!("a non-signature algorithm must be rejected"),
        }
    }
}

#[test]
fn wildcard_or_missing_hash_is_not_supported() {
    let sign = Sign::new("key".to_string(), "payload".to_string(), false);
    for alg in [
        AsymmetricSignature::EcdsaAny,
        AsymmetricSignature::RsaPkcs1v15SignRaw,
        AsymmetricSignature::Ecdsa { hash_alg: SignHash::Any },
        AsymmetricSignature::RsaPss { hash_alg: SignHash::Any },
    ] {
        match sign.prepare(&Algorithm::AsymmetricSignature(alg)) {
            Err(e) => assert_eq!(e, ToolErrorKind::NotSupported),
            Ok(_) => panic!("a scheme without a specific hash must be rejected"),
        }
    }
}

#[test]
fn unsupported_specific_hash_is_not_supported() {
    let sign = Sign::new("key".to_string(), "payload".to_string(), false);
    let alg = AsymmetricSignature::Ecdsa {
        hash_alg: SignHash::Specific(HashAlgorithm::Sha1),
    };
    assert_eq!(
        sign.prepare(&Algorithm::AsymmetricSignature(alg)).err(),
        Some(ToolErrorKind::NotSupported)
    );
}

/// Key "k1": a policy requiring SHA-256 over an elliptic-curve scheme,
/// input "hello", ASN.1 encoding requested. The output is a base64 line
/// whose decoding is a valid two-integer sequence, and the zero-extended
/// concatenation of the two integers reproduces the raw signature.
#[test]
fn end_to_end_ecc_sha256_asn1() {
    let sign = Sign::new("k1".to_string(), "hello".to_string(), true);
    let policy = Algorithm::AsymmetricSignature(AsymmetricSignature::Ecdsa {
        hash_alg: SignHash::Specific(HashAlgorithm::Sha256),
    });

    let mut sign_calls = 0;

    // Step 1: the key-attribute lookup returns the policy (simulated here).
    let req = sign.prepare(&policy).unwrap();
    assert_eq!(
        req.digest,
        hex("2cf24dba5fb0a30e26e83b2ac5b9e29e1b161e5c1fa7425e73043362938b9824")
    );

    // Step 2: the remote signer returns a fixed-width raw signature over the
    // digest (simulated: 64 bytes, the two halves R and S).
    let mut raw = req.digest.clone();
    let mut second = req.digest.clone();
    second.reverse();
    raw.extend(second);
    sign_calls += 1;

    let line = sign.finish(&req.alg, raw.clone()).unwrap();
    assert_eq!(sign_calls, 1);

    let der = base64::decode(&line).unwrap();
    assert_eq!(der[0], 0x30);
    let (r, s) = decode_ecc_signature(&der).unwrap();
    assert!(r.len() <= 32 && s.len() <= 32);
    let mut rebuilt = vec![0u8; 32 - r.len()];
    rebuilt.extend(r);
    rebuilt.extend(vec![0u8; 32 - s.len()]);
    rebuilt.extend(s);
    assert_eq!(rebuilt, raw);
}

/// Key "k2": a symmetric-cipher policy. The operation fails with
/// `WrongKeyAlgorithm` before any hashing or signing call is made: the
/// simulated signing collaborator is never invoked.
#[test]
fn end_to_end_cipher_key_never_signs() {
    let sign = Sign::new("k2".to_string(), "anything at all".to_string(), true);
    let policy = Algorithm::Cipher;

    let mut sign_calls = 0;

    match sign.prepare(&policy) {
        Err(e) => assert_eq!(e, ToolErrorKind::WrongKeyAlgorithm),
        Ok(req) => {
            // Only a successful preparation would reach the signer.
            sign_calls += 1;
            let _ = sign.finish(&req.alg, vec![0u8; 64]);
        }
    }
    assert_eq!(sign_calls, 0);
}

#[test]
fn finish_surfaces_odd_split_as_internal_error() {
    let sign = Sign::new("k1".to_string(), "hello".to_string(), true);
    let alg = AsymmetricSignature::DeterministicEcdsa {
        hash_alg: SignHash::Specific(HashAlgorithm::Sha256),
    };
    assert_eq!(
        sign.finish(&alg, vec![1u8, 2, 3]).err(),
        Some(ToolErrorKind::InternalEncodingError)
    );
}

#[test]
fn finish_without_flag_is_plain_base64() {
    let sign = Sign::new("k1".to_string(), "hello".to_string(), false);
    let alg = AsymmetricSignature::Ecdsa {
        hash_alg: SignHash::Specific(HashAlgorithm::Sha256),
    };
    let line = sign.finish(&alg, b"hello".to_vec()).unwrap();
    assert_eq!(line, "aGVsbG8=");
}
