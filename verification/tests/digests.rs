use parsec_tool::algorithm::HashAlgorithm;
use parsec_tool::error::ToolErrorKind;
use parsec_tool::hash::hash_data;

fn hex(s: &str) -> Vec<u8> {
    let b = s.as_bytes();
    assert!(b.len() % 2 == 0);
    let mut out = Vec::new();
    let val = |c: u8| -> u8 {
        match c {
            b'0'..=b'9' => c - b'0',
            b'a'..=b'f' => c - b'a' + 10,
            b'A'..=b'F' => c - b'A' + 10,
            _ => panic!("not a hex digit"),
        }
    };
    let mut i = 0;
    while i < b.len() {
        out.push(val(b[i]) * 16 + val(b[i + 1]));
        i += 2;
    }
    out
}

#[test]
fn sha224_known_vectors() {
    let d = hash_data(b"", HashAlgorithm::Sha224).unwrap();
    assert_eq!(d.len(), 28);
    assert_eq!(d, hex("d14a028c2a3a2bc9476102bb288234c415a2b01f828ea62ac5b3e42f"));
    let d = hash_data(b"abc", HashAlgorithm::Sha224).unwrap();
    assert_eq!(d, hex("23097d223405d8228642a477bda255b32aadbce4bda0b3f7e36c9da7"));
}

#[test]
fn sha256_known_vectors() {
    let d = hash_data(b"", HashAlgorithm::Sha256).unwrap();
    assert_eq!(d.len(), 32);
    assert_eq!(
        d,
        hex("e3b0c44298fc1c149afbf4c8996fb92427ae41e4649b934ca495991b7852b855")
    );
    let d = hash_data(b"abc", HashAlgorithm::Sha256).unwrap();
    assert_eq!(
        d,
        hex("ba7816bf8f01cfea414140de5dae2223b00361a396177a9cb410ff61f20015ad")
    );
}

#[test]
fn sha384_known_vectors() {
    let d = hash_data(b"", HashAlgorithm::Sha384).unwrap();
    assert_eq!(d.len(), 48);
    assert_eq!(
        d,
        hex("38b060a751ac96384cd9327eb1b1e36a21fdb71114be07434c0cc7bf63f6e1da274edebfe76f65fbd51ad2f14898b95b")
    );
    let d = hash_data(b"abc", HashAlgorithm::Sha384).unwrap();
    assert_eq!(
        d,
        hex("cb00753f45a35e8bb5a03d699ac65007272c32ab0eded1631a8b605a43ff5bed8086072ba1e7cc2358baeca134c825a7")
    );
}

#[test]
fn sha512_known_vectors() {
    let d = hash_data(b"", HashAlgorithm::Sha512).unwrap();
    assert_eq!(d.len(), 64);
    assert_eq!(
        d,
        hex("cf83e1357eefb8bdf1542850d66d8007d620e4050b5715dc83f4a921d36ce9ce47d0d13c5d85f2b0ff8318d2877eec2f63b931bd47417a81a538327af927da3e")
    );
    let d = hash_data(b"abc", HashAlgorithm::Sha512).unwrap();
    assert_eq!(
        d,
        hex("ddaf35a193617abacc417349ae20413112e6fa4e89a97ea20a9eeee64b55d39a2192992a274fc1a836ba3c23a3feebbd454d4423643ce80e2a9ac94fa54ca49f")
    );
}

#[test]
fn unsupported_hash_algorithms_fail() {
    for alg in [
        HashAlgorithm::Md2,
        HashAlgorithm::Md4,
        HashAlgorithm::Md5,
        HashAlgorithm::Ripemd160,
        HashAlgorithm::Sha1,
        HashAlgorithm::Sha512_224,
        HashAlgorithm::Sha512_256,
        HashAlgorithm::Sha3_224,
        HashAlgorithm::Sha3_256,
        HashAlgorithm::Sha3_384,
        HashAlgorithm::Sha3_512,
    ] {
        assert_eq!(
            hash_data(b"anything", alg),
            Err(ToolErrorKind::NotSupported)
        );
    }
}
