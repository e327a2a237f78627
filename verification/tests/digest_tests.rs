use pedersen_crh::digest::{CryptoHash, Keccak224, Keccak256, Keccak384, Keccak512, Sha3224};

#[test]
fn test_keccak_224() {
    let hasher = Keccak224;
    let input = b"hello world";
    let hash = hasher.hash_bytes(input);
    println!("Keccak-224 hash of 'hello world': {:?}", hash);
    assert_eq!(hash.len(), 28);
}

#[test]
fn test_digest_lengths() {
    let input = b"abc";
    assert_eq!(Keccak224.hash_bytes(input).len(), 28);
    assert_eq!(Keccak256.hash_bytes(input).len(), 32);
    assert_eq!(Keccak384.hash_bytes(input).len(), 48);
    assert_eq!(Keccak512.hash_bytes(input).len(), 64);
    assert_eq!(Sha3224.hash_bytes(input).len(), 28);
}

#[test]
fn test_digest_deterministic() {
    let input = b"determinism";
    assert_eq!(Keccak224.hash_bytes(input), Keccak224.hash_bytes(input));
    assert_eq!(Keccak256.hash_bytes(input), Keccak256.hash_bytes(input));
    assert_eq!(Keccak384.hash_bytes(input), Keccak384.hash_bytes(input));
    assert_eq!(Keccak512.hash_bytes(input), Keccak512.hash_bytes(input));
    assert_eq!(Sha3224.hash_bytes(input), Sha3224.hash_bytes(input));
}

#[test]
fn test_digest_not_input() {
    // Each digest differs from an input of the digest's own length, so no
    // backend merely hands its argument back.
    let input28 = [7u8; 28];
    assert_ne!(Keccak224.hash_bytes(&input28), input28.to_vec());
    assert_ne!(Sha3224.hash_bytes(&input28), input28.to_vec());
    let input32 = [7u8; 32];
    assert_ne!(Keccak256.hash_bytes(&input32), input32.to_vec());
    let input48 = [7u8; 48];
    assert_ne!(Keccak384.hash_bytes(&input48), input48.to_vec());
    let input64 = [7u8; 64];
    assert_ne!(Keccak512.hash_bytes(&input64), input64.to_vec());
}

#[test]
fn test_digest_input_sensitivity() {
    assert_ne!(Keccak224.hash_bytes(b"abc"), Keccak224.hash_bytes(b"abd"));
    assert_ne!(Keccak256.hash_bytes(b"abc"), Keccak256.hash_bytes(b"abd"));
    assert_ne!(Sha3224.hash_bytes(b"abc"), Keccak224.hash_bytes(b"abc"));
}
