use pedersen_crh::crh::{CRHError, CRH};
use pedersen_crh::group::Affine;
use pedersen_crh::pedersen::PedersenCRH;

type TestCRH = PedersenCRH<2, 3>;

#[test]
fn test_setup_deterministic() {
    let a = TestCRH::setup("test").unwrap();
    let b = TestCRH::setup("test").unwrap();
    assert_eq!(a, b);
    assert_eq!(a.parameters(), b.parameters());
}

#[test]
fn test_window_shape() {
    assert_eq!(TestCRH::window(), (2, 3));
}

#[test]
fn test_doubling_invariant() {
    let hasher = TestCRH::setup("test").unwrap();
    let bases = hasher.parameters();
    assert_eq!(bases.len(), 2);
    for window in bases.iter() {
        assert_eq!(window.len(), 3);
        let mut expected = window[0];
        for power in window.iter() {
            assert_eq!(*power, expected);
            expected.double_in_place();
        }
    }
}

#[test]
fn test_padding_transparency() {
    let hasher = TestCRH::setup("test").unwrap();
    let short = [true, false, true];
    let full = [true, false, true, false, false, false];
    assert_eq!(hasher.hash(&short).unwrap(), hasher.hash(&full).unwrap());
    let empty: [bool; 0] = [];
    let zeros = [false, false, false, false, false, false];
    assert_eq!(hasher.hash(&empty).unwrap(), hasher.hash(&zeros).unwrap());
}

#[test]
fn test_length_rejection() {
    let hasher = TestCRH::setup("test").unwrap();
    let too_long = [true, false, true, false, true, false, true];
    assert_eq!(
        hasher.hash(&too_long),
        Err(CRHError::IncorrectInputLength(7, 3, 2))
    );
}

#[test]
fn test_bit_sensitivity() {
    let hasher = TestCRH::setup("test").unwrap();
    let input = [true, false, false, false, true, false];
    let output = hasher.hash(&input).unwrap();
    for flip in 0..input.len() {
        let mut flipped = input;
        flipped[flip] = !flipped[flip];
        assert_ne!(hasher.hash(&flipped).unwrap(), output);
    }
}

#[test]
fn test_zero_input() {
    let hasher = TestCRH::setup("test").unwrap();
    for len in 0..=6 {
        let zeros = vec![false; len];
        assert_eq!(hasher.hash(&zeros).unwrap(), Affine::zero());
    }
}

#[test]
fn test_concrete_scenario() {
    let hasher = TestCRH::setup("test").unwrap();
    let input = [true, false, false, false, true, false];
    let output = hasher.hash(&input).unwrap();
    let bases = hasher.parameters();
    let expected = bases[0][0].add(&bases[1][1]).into_affine();
    assert_eq!(output, expected);
}

#[test]
fn test_instance_independence() {
    let a = TestCRH::setup("test").unwrap();
    let b = TestCRH::setup("another domain").unwrap();
    for window_a in a.parameters().iter() {
        for power_a in window_a.iter() {
            for window_b in b.parameters().iter() {
                for power_b in window_b.iter() {
                    assert_ne!(power_a, power_b);
                }
            }
        }
    }
}

#[test]
fn test_field_export_is_empty() {
    let hasher = TestCRH::setup("test").unwrap();
    assert!(hasher.to_field_elements().is_empty());
}

#[test]
fn test_larger_shape() {
    let hasher = PedersenCRH::<4, 8>::setup("test").unwrap();
    assert_eq!(hasher.parameters().len(), 4);
    let mut input = vec![false; 32];
    input[0] = true;
    input[31] = true;
    let output = hasher.hash(&input).unwrap();
    assert_eq!(output, hasher.hash(&input).unwrap());
    assert_ne!(output, Affine::zero());
}
