use pedersen_crh::group::Affine;
use pedersen_crh::sampler::{build_salted_domain, hash_to_curve};

#[test]
fn test_salted_domain_format() {
    assert_eq!(build_salted_domain(b"seed", 0), b"seed at 0".to_vec());
    assert_eq!(build_salted_domain(b"seed", 17), b"seed at 17".to_vec());
    assert_eq!(build_salted_domain(b"", 905), b" at 905".to_vec());
    assert_eq!(
        build_salted_domain(b"test", 10000000019),
        b"test at 10000000019".to_vec()
    );
}

#[test]
fn test_hash_to_curve_deterministic() {
    let a = hash_to_curve(b"domain one").unwrap();
    let b = hash_to_curve(b"domain one").unwrap();
    assert_eq!(a, b);
}

#[test]
fn test_hash_to_curve_valid_point() {
    let p = hash_to_curve(b"some domain").unwrap();
    assert_ne!(p, Affine::zero());
}

#[test]
fn test_hash_to_curve_domain_separation() {
    let a = hash_to_curve(b"domain one").unwrap();
    let b = hash_to_curve(b"domain two").unwrap();
    assert_ne!(a, b);
}
