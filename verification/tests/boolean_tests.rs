use pedersen_crh::boolean::Boolean;

#[test]
fn test_to_bits_le() {
    for value in [false, true] {
        let boolean = Boolean::new(value);
        let candidate = boolean.to_bits_le();
        assert_eq!(vec![boolean.get()], candidate);
        assert_eq!(Boolean::size_in_bits(), candidate.len());
    }
}

#[test]
fn test_to_bits_be() {
    for value in [false, true] {
        let boolean = Boolean::new(value);
        let candidate = boolean.to_bits_be();
        assert_eq!(vec![boolean.get()], candidate);
        assert_eq!(Boolean::size_in_bits(), candidate.len());
    }
}
