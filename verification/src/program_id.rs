//! Program IDs of the form `{name}.{network}`.

use vstd::prelude::*;
use vstd::string::StringSliceAdditionalSpecFns;
use core::cmp::Ordering;
use crate::identifier::{id_order, sub_vec, valid_identifier, Identifier, ParseError};

verus! {

/// Position `d` holds the only dot of `s`.
pub open spec fn unique_dot(s: Seq<u8>, d: int) -> bool {
    &&& 0 <= d < s.len()
    &&& s[d] == 46
    &&& forall|j: int| 0 <= j < s.len() && j != d ==> s[j] != 46
}

/// `s` holds exactly one dot.
pub open spec fn has_unique_dot(s: Seq<u8>) -> bool {
    exists|d: int| #[trigger] unique_dot(s, d)
}

/// `s` splits at its only dot into two well-formed identifiers.
pub open spec fn splits_at(s: Seq<u8>, d: int) -> bool {
    &&& unique_dot(s, d)
    &&& valid_identifier(s.subrange(0, d))
    &&& valid_identifier(s.subrange(d + 1, s.len() as int))
}

/// A well-formed program ID string: `{name}.{network}` with both components
/// well-formed identifiers.
pub open spec fn valid_program_id(s: Seq<u8>) -> bool {
    exists|d: int| #[trigger] splits_at(s, d)
}

/// A program ID: a program name under a network-level domain.
#[derive(Clone, PartialEq, Eq, Hash, Debug)]
pub struct ProgramID {
    /// The program name.
    pub name: Identifier,
    /// The network-level domain.
    pub network: Identifier,
}

/// The order of program IDs: by the network first, then by the program name.
pub open spec fn program_id_order(a: &ProgramID, b: &ProgramID) -> Ordering {
    if id_order(a.network@, b.network@) == Ordering::Equal {
        id_order(a.name@, b.name@)
    } else {
        id_order(a.network@, b.network@)
    }
}

/// Finds the position of the only dot of `bytes`, if there is exactly one.
fn find_unique_dot(bytes: &[u8]) -> (r: Option<usize>)
    ensures
        match r {
            Some(d) => unique_dot(bytes@, d as int),
            None => !has_unique_dot(bytes@),
        },
{
    let mut first: Option<usize> = None;
    let mut j: usize = 0;
    while j < bytes.len()
        invariant
            j <= bytes@.len(),
            match first {
                Some(p) => p < j && bytes@[p as int] == 46 && forall|j2: int|
                    0 <= j2 < j && j2 != p ==> bytes@[j2] != 46,
                None => forall|j2: int| 0 <= j2 < j ==> bytes@[j2] != 46,
            },
        decreases bytes@.len() - j,
    {
        if bytes[j] == 46 {
            match first {
                None => {
                    first = Some(j);
                },
                Some(p) => {
                    proof {
                        assert(!has_unique_dot(bytes@)) by {
                            if has_unique_dot(bytes@) {
                                let d = choose|d: int| unique_dot(bytes@, d);
                                assert(bytes@[p as int] == 46);
                                assert(bytes@[j as int] == 46);
                            }
                        }
                    }
                    return None;
                },
            }
        }
        j += 1;
    }
    match first {
        Some(p) => Some(p),
        None => {
            proof {
                assert(!has_unique_dot(bytes@)) by {
                    if has_unique_dot(bytes@) {
                        let d = choose|d: int| unique_dot(bytes@, d);
                        assert(bytes@[d] == 46);
                    }
                }
            }
            None
        },
    }
}

impl ProgramID {
    /// Initializes a program ID from a name and a network-level domain.
    pub fn from_parts(name: Identifier, network: Identifier) -> (r: Self)
        ensures
            r.name == name,
            r.network == network,
    {
        ProgramID { name, network }
    }

    /// Parses `{name}.{network}`, accepting exactly the strings with one dot
    /// and a well-formed identifier on each side.
    pub fn from_str(s: &str) -> (r: Result<ProgramID, ParseError>)
        ensures
            match r {
                Ok(pid) => {
                    &&& valid_program_id(s.spec_bytes())
                    &&& splits_at(s.spec_bytes(), pid.name@.len() as int)
                    &&& pid.name@ == s.spec_bytes().subrange(0, pid.name@.len() as int)
                    &&& pid.network@ == s.spec_bytes().subrange(
                        pid.name@.len() as int + 1,
                        s.spec_bytes().len() as int,
                    )
                },
                Err(e) => {
                    &&& !valid_program_id(s.spec_bytes())
                    &&& if has_unique_dot(s.spec_bytes()) {
                        e == ParseError::InvalidIdentifier
                    } else {
                        e == ParseError::InvalidProgramId
                    }
                },
            },
    {
        let bytes = s.as_bytes();
        let d = match find_unique_dot(bytes) {
            Some(d) => d,
            None => {
                proof {
                    assert(!valid_program_id(bytes@)) by {
                        if valid_program_id(bytes@) {
                            let w = choose|w: int| splits_at(bytes@, w);
                            assert(unique_dot(bytes@, w));
                        }
                    }
                }
                return Err(ParseError::InvalidProgramId);
            },
        };
        let n = bytes.len();
        let name_bytes = sub_vec(bytes, 0, d);
        let network_bytes = sub_vec(bytes, d + 1, n);
        let name = match Identifier::from_bytes(name_bytes.as_slice()) {
            Ok(id) => id,
            Err(e) => {
                proof {
                    lemma_no_other_split(bytes@, d as int);
                }
                return Err(e);
            },
        };
        let network = match Identifier::from_bytes(network_bytes.as_slice()) {
            Ok(id) => id,
            Err(e) => {
                proof {
                    lemma_no_other_split(bytes@, d as int);
                }
                return Err(e);
            },
        };
        proof {
            assert(splits_at(bytes@, d as int));
        }
        Ok(ProgramID { name, network })
    }

    /// Returns the program name.
    pub fn name(&self) -> (r: &Identifier)
        ensures
            *r == self.name,
    {
        &self.name
    }

    /// Returns the network-level domain.
    pub fn network(&self) -> (r: &Identifier)
        ensures
            *r == self.network,
    {
        &self.network
    }

    /// Returns `true` if the network-level domain is `aleo`.
    pub fn is_aleo(&self) -> (r: bool)
        ensures
            r == (self.network@ == seq![97u8, 108u8, 101u8, 111u8]),
    {
        let mut aleo: Vec<u8> = Vec::new();
        aleo.push(97);
        aleo.push(108);
        aleo.push(101);
        aleo.push(111);
        proof {
            assert(aleo@ =~= seq![97u8, 108u8, 101u8, 111u8]);
        }
        let domain = Identifier { bytes: aleo };
        self.network.equals(&domain)
    }

    /// Compares two program IDs: by the network first, then by the name.
    pub fn compare(&self, other: &ProgramID) -> (r: Ordering)
        ensures
            r == program_id_order(self, other),
    {
        let net = self.network.compare(&other.network);
        match net {
            Ordering::Equal => self.name.compare(&other.name),
            Ordering::Less => Ordering::Less,
            Ordering::Greater => Ordering::Greater,
        }
    }
}

/// If the only dot of `s` stands at `d`, then `s` splits nowhere else, so a
/// failed identifier check on either side of `d` refutes every split.
proof fn lemma_no_other_split(s: Seq<u8>, d: int)
    requires
        unique_dot(s, d),
        !(valid_identifier(s.subrange(0, d)) && valid_identifier(
            s.subrange(d + 1, s.len() as int),
        )),
    ensures
        !valid_program_id(s),
        has_unique_dot(s),
{
    assert(has_unique_dot(s)) by {
        assert(unique_dot(s, d));
    }
    assert(!valid_program_id(s)) by {
        if valid_program_id(s) {
            let w = choose|w: int| splits_at(s, w);
            assert(unique_dot(s, w));
            assert(s[w] == 46);
            assert(w == d);
        }
    }
}

impl From<(Identifier, Identifier)> for ProgramID {
    /// Initializes a program ID from a `(name, network)` pair.
    fn from(parts: (Identifier, Identifier)) -> (r: Self) {
        ProgramID { name: parts.0, network: parts.1 }
    }
}

impl vstd::std_specs::convert::FromSpecImpl<(Identifier, Identifier)> for ProgramID {
    open spec fn obeys_from_spec() -> bool {
        true
    }

    open spec fn from_spec(parts: (Identifier, Identifier)) -> Self {
        ProgramID { name: parts.0, network: parts.1 }
    }
}

impl PartialOrd for ProgramID {
    /// Ordering is determined by the network first, then the program name.
    fn partial_cmp(&self, other: &Self) -> (r: Option<Ordering>) {
        Some(self.compare(other))
    }
}

impl vstd::std_specs::cmp::PartialOrdSpecImpl for ProgramID {
    open spec fn obeys_partial_cmp_spec() -> bool {
        true
    }

    open spec fn partial_cmp_spec(&self, other: &Self) -> Option<Ordering> {
        Some(program_id_order(self, other))
    }
}

} // verus!
