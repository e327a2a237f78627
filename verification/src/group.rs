//! The prime-order group that the Pedersen construction folds into.
//!
//! The hash algorithm only consumes a group capability: an identity element,
//! point addition, doubling, and a conversion from the internal accumulator
//! representation to the canonical affine output form.  The concrete group is
//! supplied here as configuration: the additive group of integers modulo the
//! Mersenne prime `2^61 - 1`.  Every element of a prime-order group other than
//! the identity is a generator, which is exactly what the deterministic
//! sampler needs.

use vstd::prelude::*;

verus! {

/// The order of the group: the Mersenne prime `2^61 - 1`.
pub const GROUP_ORDER: u64 = 2305843009213693951;

/// Addition in the group, on reduced representatives.
pub open spec fn group_add(x: u64, y: u64) -> u64 {
    if x + y < GROUP_ORDER {
        (x + y) as u64
    } else {
        (x + y - GROUP_ORDER) as u64
    }
}

/// Doubling in the group, on reduced representatives.
pub open spec fn group_double(x: u64) -> u64 {
    group_add(x, x)
}

/// `2^k` times `x` in the group: `k` successive doublings of `x`.
pub open spec fn pow2_times(k: nat, x: u64) -> u64
    decreases k,
{
    if k == 0 {
        x
    } else {
        group_double(pow2_times((k - 1) as nat, x))
    }
}

/// A group element in the internal accumulator representation.  The folding
/// algorithm and the doubling chains of `setup` work on this type and convert
/// to `Affine` exactly once, when a result is handed out.
#[derive(Clone, Copy, PartialEq, Eq, PartialOrd, Ord, Structural, Debug)]
pub struct Projective {
    pub repr: u64,
}

/// A group element in canonical affine form: the hash output type, suitable
/// for comparison and serialization by downstream consumers.
#[derive(Clone, Copy, PartialEq, Eq, PartialOrd, Ord, Structural, Debug)]
pub struct Affine {
    pub repr: u64,
}

impl Projective {
    /// A representative is well-formed when it is reduced modulo the order.
    pub open spec fn wf(&self) -> bool {
        self.repr < GROUP_ORDER
    }

    /// The group identity.
    pub fn zero() -> (r: Self)
        ensures
            r.repr == 0,
            r.wf(),
    {
        Projective { repr: 0 }
    }

    /// Group addition.
    pub fn add(&self, other: &Projective) -> (r: Projective)
        requires
            self.wf(),
            other.wf(),
        ensures
            r.repr == group_add(self.repr, other.repr),
            r.wf(),
    {
        let s: u64 = self.repr + other.repr;
        if s >= GROUP_ORDER {
            Projective { repr: s - GROUP_ORDER }
        } else {
            Projective { repr: s }
        }
    }

    /// Doubling, in place: the step of the precomputed power tables.
    pub fn double_in_place(&mut self)
        requires
            old(self).wf(),
        ensures
            final(self).repr == group_double(old(self).repr),
            final(self).wf(),
    {
        let s: u64 = self.repr + self.repr;
        if s >= GROUP_ORDER {
            self.repr = s - GROUP_ORDER;
        } else {
            self.repr = s;
        }
    }

    /// Normalization to the canonical affine form.
    pub fn into_affine(&self) -> (r: Affine)
        requires
            self.wf(),
        ensures
            r.repr == self.repr,
            r.wf(),
    {
        Affine { repr: self.repr }
    }
}

impl Affine {
    /// A representative is well-formed when it is reduced modulo the order.
    pub open spec fn wf(&self) -> bool {
        self.repr < GROUP_ORDER
    }

    /// The group identity in affine form.
    pub fn zero() -> (r: Self)
        ensures
            r.repr == 0,
            r.wf(),
    {
        Affine { repr: 0 }
    }

    /// Conversion into the internal accumulator representation.
    pub fn into_projective(&self) -> (r: Projective)
        requires
            self.wf(),
        ensures
            r.repr == self.repr,
            r.wf(),
    {
        Projective { repr: self.repr }
    }
}

} // verus!
