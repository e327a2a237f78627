//! Mapping value statements: `value {name} as {finalize_type};`.

use vstd::prelude::*;
use crate::identifier::Identifier;

verus! {

/// The type a mapping value is declared with: a plaintext type name, or a
/// future bound to the program that produces it.
#[derive(Clone, PartialEq, Eq, Hash, Debug)]
pub enum FinalizeType {
    /// A plaintext type, held by its type name.
    Plaintext(Identifier),
    /// A future, held by the name of its locator.
    Future(Identifier),
}

/// A value statement of a mapping: its name and its declared type.
#[derive(Clone, PartialEq, Eq, Hash, Debug)]
pub struct MapValue {
    /// The value name.
    pub name: Identifier,
    /// The value type.
    pub finalize_type: FinalizeType,
}

impl MapValue {
    /// Initializes a value statement from a name and a type.
    pub fn new(name: Identifier, finalize_type: FinalizeType) -> (r: Self)
        ensures
            r.name == name,
            r.finalize_type == finalize_type,
    {
        MapValue { name, finalize_type }
    }

    /// Returns the value name.
    pub fn name(&self) -> (r: &Identifier)
        ensures
            *r == self.name,
    {
        &self.name
    }

    /// Returns the value type.
    pub fn finalize_type(&self) -> (r: &FinalizeType)
        ensures
            *r == self.finalize_type,
    {
        &self.finalize_type
    }

    /// Returns the name of this statement kind as a string.
    pub fn type_label() -> (r: &'static str)
        ensures
            r@ == "value"@,
    {
        "value"
    }
}

} // verus!
