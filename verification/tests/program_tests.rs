use core::cmp::Ordering;
use pedersen_crh::identifier::{Identifier, ParseError};
use pedersen_crh::map_value::{FinalizeType, MapValue};
use pedersen_crh::program_id::ProgramID;

#[test]
fn test_partial_ord() {
    let import1 = ProgramID::from_str("bar.aleo").unwrap();
    let import2 = ProgramID::from_str("foo.aleo").unwrap();

    let import3 = ProgramID::from_str("bar.aleo").unwrap();
    let import4 = ProgramID::from_str("foo.aleo").unwrap();

    assert_eq!(import1.partial_cmp(&import1), Some(Ordering::Equal));
    assert_eq!(import1.partial_cmp(&import2), Some(Ordering::Greater));
    assert_eq!(import1.partial_cmp(&import3), Some(Ordering::Equal));
    assert_eq!(import1.partial_cmp(&import4), Some(Ordering::Greater));

    assert_eq!(import2.partial_cmp(&import1), Some(Ordering::Less));
    assert_eq!(import2.partial_cmp(&import2), Some(Ordering::Equal));
    assert_eq!(import2.partial_cmp(&import3), Some(Ordering::Less));
    assert_eq!(import2.partial_cmp(&import4), Some(Ordering::Equal));

    assert_eq!(import3.partial_cmp(&import1), Some(Ordering::Equal));
    assert_eq!(import3.partial_cmp(&import2), Some(Ordering::Greater));
    assert_eq!(import3.partial_cmp(&import3), Some(Ordering::Equal));
    assert_eq!(import3.partial_cmp(&import4), Some(Ordering::Greater));

    assert_eq!(import4.partial_cmp(&import1), Some(Ordering::Less));
    assert_eq!(import4.partial_cmp(&import2), Some(Ordering::Equal));
    assert_eq!(import4.partial_cmp(&import3), Some(Ordering::Less));
    assert_eq!(import4.partial_cmp(&import4), Some(Ordering::Equal));
}

#[test]
fn test_value_type_name() {
    assert_eq!(MapValue::type_label(), "value");
}

#[test]
fn test_map_value_accessors() {
    let name = Identifier::from_str("amount").unwrap();
    let ty = FinalizeType::Plaintext(Identifier::from_str("u64max").unwrap());
    let value = MapValue::new(name.clone(), ty.clone());
    assert_eq!(value.name(), &name);
    assert_eq!(value.finalize_type(), &ty);
}

#[test]
fn test_program_id_accessors() {
    let id = ProgramID::from_str("credits.aleo").unwrap();
    assert_eq!(id.name(), &Identifier::from_str("credits").unwrap());
    assert_eq!(id.network(), &Identifier::from_str("aleo").unwrap());
    assert!(id.is_aleo());
    let other = ProgramID::from_str("credits.local").unwrap();
    assert!(!other.is_aleo());
}

#[test]
fn test_program_id_errors() {
    assert_eq!(
        ProgramID::from_str("credits"),
        Err(ParseError::InvalidProgramId)
    );
    assert_eq!(
        ProgramID::from_str("a.b.aleo"),
        Err(ParseError::InvalidProgramId)
    );
    assert_eq!(
        ProgramID::from_str("credits."),
        Err(ParseError::InvalidIdentifier)
    );
    assert_eq!(
        ProgramID::from_str(".aleo"),
        Err(ParseError::InvalidIdentifier)
    );
    assert_eq!(
        ProgramID::from_str("9lives.aleo"),
        Err(ParseError::InvalidIdentifier)
    );
}

#[test]
fn test_identifier_rules() {
    assert!(Identifier::from_str("foo_bar123").is_ok());
    assert_eq!(Identifier::from_str(""), Err(ParseError::InvalidIdentifier));
    assert_eq!(
        Identifier::from_str("Foo"),
        Err(ParseError::InvalidIdentifier)
    );
    assert_eq!(
        Identifier::from_str("_foo"),
        Err(ParseError::InvalidIdentifier)
    );
    assert_eq!(
        Identifier::from_str("abcdefghijklmnopqrstuvwxyzabcdef"),
        Err(ParseError::InvalidIdentifier)
    );
}

#[test]
fn test_identifier_order() {
    let bar = Identifier::from_str("bar").unwrap();
    let foo = Identifier::from_str("foo").unwrap();
    let longer = Identifier::from_str("quux").unwrap();
    // Identifiers order by the numeric value of their little-endian packed
    // bytes: the last byte is the most significant, and longer names exceed
    // shorter ones.
    assert_eq!(bar.compare(&foo), Ordering::Greater);
    assert_eq!(foo.compare(&bar), Ordering::Less);
    assert_eq!(bar.compare(&bar), Ordering::Equal);
    assert_eq!(foo.compare(&longer), Ordering::Less);
    assert_eq!(longer.compare(&foo), Ordering::Greater);
}
