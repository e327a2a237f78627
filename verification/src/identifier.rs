//! Identifiers: the short names out of which program IDs are built.
//!
//! An identifier is a non-empty ASCII string of at most 31 bytes that starts
//! with a lowercase letter and continues with lowercase letters, digits or
//! underscores.  Identifiers are ordered numerically by the integer value of
//! their little-endian packed bytes: a shorter identifier precedes a longer
//! one (every byte is nonzero), and identifiers of equal length compare by
//! their bytes from the last position down.

use vstd::prelude::*;
use vstd::string::StringSliceAdditionalSpecFns;
use vstd::arithmetic::power::{lemma_pow_increases, lemma_pow_positive, pow};
use core::cmp::Ordering;

verus! {

/// The failures of parsing an identifier or a program ID.
#[derive(Clone, Copy, PartialEq, Eq, Structural, Debug)]
pub enum ParseError {
    /// A component is not a well-formed identifier.
    InvalidIdentifier,
    /// The string is not of the form `{name}.{network}`.
    InvalidProgramId,
}

/// A lowercase ASCII letter.
pub open spec fn is_letter(b: u8) -> bool {
    97 <= b <= 122
}

/// A byte an identifier may contain: a lowercase letter, a digit, or an
/// underscore.
pub open spec fn is_identifier_byte(b: u8) -> bool {
    is_letter(b) || (48 <= b <= 57) || b == 95
}

/// A well-formed identifier: 1 to 31 bytes, starting with a letter,
/// containing only identifier bytes.
pub open spec fn valid_identifier(s: Seq<u8>) -> bool {
    &&& 1 <= s.len() <= 31
    &&& is_letter(s[0])
    &&& forall|j: int| 0 <= j < s.len() ==> is_identifier_byte(#[trigger] s[j])
}

/// Reversed lexicographic comparison of two byte sequences of equal length:
/// the last differing byte decides.
pub open spec fn rev_lex(a: Seq<u8>, b: Seq<u8>) -> Ordering
    decreases a.len(),
{
    if a.len() == 0 || b.len() == 0 {
        Ordering::Equal
    } else if a.last() == b.last() {
        rev_lex(a.drop_last(), b.drop_last())
    } else if a.last() < b.last() {
        Ordering::Less
    } else {
        Ordering::Greater
    }
}

/// The order of identifiers: the numeric order of their little-endian packed
/// bytes.  Since every identifier byte is nonzero, a shorter identifier is
/// always the smaller; equal lengths compare from the last byte down.
pub open spec fn id_order(a: Seq<u8>, b: Seq<u8>) -> Ordering {
    if a.len() < b.len() {
        Ordering::Less
    } else if a.len() > b.len() {
        Ordering::Greater
    } else {
        rev_lex(a, b)
    }
}

/// The numeric value of a byte sequence read as a little-endian integer:
/// the first byte is the least significant.
pub open spec fn le_int(s: Seq<u8>) -> int
    decreases s.len(),
{
    if s.len() == 0 {
        0
    } else {
        s[0] + 256 * le_int(s.drop_first())
    }
}

proof fn lemma_le_int_bound(s: Seq<u8>)
    ensures
        0 <= le_int(s) < pow(256, s.len()),
    decreases s.len(),
{
    reveal(pow);
    if s.len() == 0 {
    } else {
        lemma_le_int_bound(s.drop_first());
    }
}

proof fn lemma_le_int_push(s: Seq<u8>, x: u8)
    ensures
        le_int(s.push(x)) == le_int(s) + x * pow(256, s.len()),
    decreases s.len(),
{
    reveal(pow);
    if s.len() == 0 {
        assert(s.push(x).drop_first() =~= Seq::<u8>::empty());
        assert(le_int(s.push(x)) == x + 256 * le_int(s.push(x).drop_first()));
        assert(le_int(s.push(x).drop_first()) == 0);
        assert(x * pow(256, 0) == x) by (nonlinear_arith)
            requires
                pow(256, 0) == 1,
        ;
    } else {
        let t = s.drop_first();
        assert(s.push(x).drop_first() =~= t.push(x));
        lemma_le_int_push(t, x);
        let p = pow(256, t.len());
        assert(256 * (x * p) == x * (256 * p)) by (nonlinear_arith);
        assert(pow(256, s.len()) == 256 * p);
        assert(le_int(s.push(x)) == s[0] + 256 * le_int(t.push(x)));
        assert(le_int(s.push(x)) == s[0] + 256 * le_int(t) + 256 * (x * p));
        assert(le_int(s) == s[0] + 256 * le_int(t));
    }
}

proof fn lemma_rev_lex_le_int(a: Seq<u8>, b: Seq<u8>)
    requires
        a.len() == b.len(),
    ensures
        (rev_lex(a, b) == Ordering::Less) <==> le_int(a) < le_int(b),
        (rev_lex(a, b) == Ordering::Equal) <==> le_int(a) == le_int(b),
    decreases a.len(),
{
    if a.len() == 0 {
    } else {
        let a1 = a.drop_last();
        let b1 = b.drop_last();
        let x = a.last();
        let y = b.last();
        assert(a1.push(x) =~= a);
        assert(b1.push(y) =~= b);
        lemma_le_int_push(a1, x);
        lemma_le_int_push(b1, y);
        lemma_le_int_bound(a1);
        lemma_le_int_bound(b1);
        let p = pow(256, a1.len());
        lemma_pow_positive(256, a1.len());
        if x == y {
            lemma_rev_lex_le_int(a1, b1);
        } else if x < y {
            assert(le_int(a1) + x * p < le_int(b1) + y * p) by (nonlinear_arith)
                requires
                    0 <= le_int(a1) < p,
                    0 <= le_int(b1),
                    x < y,
            ;
        } else {
            assert(le_int(b1) + y * p < le_int(a1) + x * p) by (nonlinear_arith)
                requires
                    0 <= le_int(b1) < p,
                    0 <= le_int(a1),
                    y < x,
            ;
        }
    }
}

proof fn lemma_le_int_longer(a: Seq<u8>, b: Seq<u8>)
    requires
        a.len() < b.len(),
        b[b.len() - 1] >= 1,
    ensures
        le_int(a) < le_int(b),
{
    let b1 = b.drop_last();
    let y = b.last();
    assert(b1.push(y) =~= b);
    lemma_le_int_push(b1, y);
    lemma_le_int_bound(a);
    lemma_le_int_bound(b1);
    let p = pow(256, b1.len());
    lemma_pow_positive(256, b1.len());
    lemma_pow_increases(256, a.len(), b1.len());
    assert(p <= y * p) by (nonlinear_arith)
        requires
            y >= 1,
            p > 0,
    ;
}

/// The identifier order coincides with the numeric order of the
/// little-endian packed bytes: `id_order` reports less exactly when the
/// packed integer value is less, and equal exactly when it is equal.
pub proof fn lemma_id_order_is_le_int_order(a: Seq<u8>, b: Seq<u8>)
    requires
        valid_identifier(a),
        valid_identifier(b),
    ensures
        (id_order(a, b) == Ordering::Less) <==> le_int(a) < le_int(b),
        (id_order(a, b) == Ordering::Equal) <==> le_int(a) == le_int(b),
{
    assert(is_identifier_byte(a[a.len() - 1]));
    assert(is_identifier_byte(b[b.len() - 1]));
    if a.len() == b.len() {
        lemma_rev_lex_le_int(a, b);
    } else if a.len() < b.len() {
        lemma_le_int_longer(a, b);
    } else {
        lemma_le_int_longer(b, a);
    }
}

/// A parsed, validated identifier.
#[derive(Clone, PartialEq, Eq, Hash, Debug)]
pub struct Identifier {
    pub bytes: Vec<u8>,
}

impl View for Identifier {
    type V = Seq<u8>;

    open spec fn view(&self) -> Seq<u8> {
        self.bytes@
    }
}

/// Whether a byte string is a well-formed identifier.
fn check_identifier(bytes: &[u8]) -> (r: bool)
    ensures
        r == valid_identifier(bytes@),
{
    if bytes.len() < 1 || bytes.len() > 31 {
        return false;
    }
    let first = bytes[0];
    if !(97 <= first && first <= 122) {
        return false;
    }
    let mut j: usize = 1;
    while j < bytes.len()
        invariant
            1 <= j <= bytes@.len(),
            forall|j2: int| 0 <= j2 < j ==> is_identifier_byte(#[trigger] bytes@[j2]),
        decreases bytes@.len() - j,
    {
        let b = bytes[j];
        if !((97 <= b && b <= 122) || (48 <= b && b <= 57) || b == 95) {
            return false;
        }
        j += 1;
    }
    true
}

/// Copies `bytes[from..to]` into a fresh vector.
pub(crate) fn sub_vec(bytes: &[u8], from: usize, to: usize) -> (r: Vec<u8>)
    requires
        from <= to <= bytes@.len(),
    ensures
        r@ == bytes@.subrange(from as int, to as int),
{
    let mut out: Vec<u8> = Vec::new();
    let mut j = from;
    while j < to
        invariant
            from <= j <= to <= bytes@.len(),
            out@ == bytes@.subrange(from as int, j as int),
        decreases to - j,
    {
        out.push(bytes[j]);
        proof {
            assert(out@ =~= bytes@.subrange(from as int, j + 1 as int));
        }
        j += 1;
    }
    out
}

impl Identifier {
    /// Parses an identifier, accepting exactly the well-formed strings.
    pub fn from_str(s: &str) -> (r: Result<Identifier, ParseError>)
        ensures
            match r {
                Ok(id) => valid_identifier(s.spec_bytes()) && id@ == s.spec_bytes(),
                Err(e) => e == ParseError::InvalidIdentifier && !valid_identifier(s.spec_bytes()),
            },
    {
        let bytes = s.as_bytes();
        if check_identifier(bytes) {
            Ok(Identifier { bytes: sub_vec(bytes, 0, bytes.len()) })
        } else {
            Err(ParseError::InvalidIdentifier)
        }
    }

    /// Builds an identifier from raw bytes, accepting exactly the
    /// well-formed strings.
    pub fn from_bytes(bytes: &[u8]) -> (r: Result<Identifier, ParseError>)
        ensures
            match r {
                Ok(id) => valid_identifier(bytes@) && id@ == bytes@,
                Err(e) => e == ParseError::InvalidIdentifier && !valid_identifier(bytes@),
            },
    {
        if check_identifier(bytes) {
            Ok(Identifier { bytes: sub_vec(bytes, 0, bytes.len()) })
        } else {
            Err(ParseError::InvalidIdentifier)
        }
    }

    /// Whether two identifiers hold the same bytes.
    pub fn equals(&self, other: &Identifier) -> (r: bool)
        ensures
            r == (self@ == other@),
    {
        if self.bytes.len() != other.bytes.len() {
            return false;
        }
        let mut j: usize = 0;
        while j < self.bytes.len()
            invariant
                j <= self@.len(),
                self@.len() == other@.len(),
                forall|j2: int| 0 <= j2 < j ==> self@[j2] == other@[j2],
            decreases self@.len() - j,
        {
            if self.bytes[j] != other.bytes[j] {
                return false;
            }
            j += 1;
        }
        proof {
            assert(self@ =~= other@);
        }
        true
    }

    /// Compares two identifiers in the numeric order of their little-endian
    /// packed bytes.
    pub fn compare(&self, other: &Identifier) -> (r: Ordering)
        ensures
            r == id_order(self@, other@),
    {
        if self.bytes.len() < other.bytes.len() {
            return Ordering::Less;
        }
        if self.bytes.len() > other.bytes.len() {
            return Ordering::Greater;
        }
        let mut j: usize = self.bytes.len();
        proof {
            assert(self@.subrange(0, j as int) =~= self@);
            assert(other@.subrange(0, j as int) =~= other@);
        }
        while j > 0
            invariant
                j <= self@.len(),
                self@.len() == other@.len(),
                rev_lex(self@, other@) == rev_lex(
                    self@.subrange(0, j as int),
                    other@.subrange(0, j as int),
                ),
            decreases j,
        {
            let x = self.bytes[j - 1];
            let y = other.bytes[j - 1];
            proof {
                assert(self@.subrange(0, j as int).last() == self@[j - 1]);
                assert(other@.subrange(0, j as int).last() == other@[j - 1]);
                assert(self@.subrange(0, j as int).drop_last() =~= self@.subrange(0, j - 1));
                assert(other@.subrange(0, j as int).drop_last() =~= other@.subrange(0, j - 1));
            }
            if x < y {
                return Ordering::Less;
            }
            if x > y {
                return Ordering::Greater;
            }
            j -= 1;
        }
        proof {
            assert(rev_lex(self@.subrange(0, 0), other@.subrange(0, 0)) == Ordering::Equal);
        }
        Ordering::Equal
    }
}

} // verus!
