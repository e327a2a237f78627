//! The deterministic curve sampler: maps a domain-separated byte string to a
//! non-identity group element.
//!
//! A candidate element is derived from the Keccak-256 digest of the domain
//! salted with an attempt counter; the candidate is valid unless it is the
//! identity, in which case the next attempt is tried, up to a fixed bound.
//! In a prime-order group every non-identity element is a generator, so a
//! valid sample is a generator.  The whole procedure is a pure function of
//! the domain bytes.

use vstd::prelude::*;
use vstd::slice::slice_to_vec;
use crate::crh::CRHError;
use crate::digest::{keccak256_of, keccak256_digest};
use crate::group::{Affine, GROUP_ORDER};

verus! {

/// How many salted attempts the sampler makes before reporting failure.
pub const SAMPLE_ATTEMPTS: usize = 256;

/// The decimal digits (ASCII) of `n`, most significant first.
pub open spec fn dec_digits(n: nat) -> Seq<u8>
    decreases n,
{
    if n < 10 {
        seq![(48 + n) as u8]
    } else {
        dec_digits(n / 10).push((48 + n % 10) as u8)
    }
}

/// The per-window domain string: `"{message} at {index}"`, as bytes.
pub open spec fn salted_domain(message: Seq<u8>, index: nat) -> Seq<u8> {
    message + seq![32u8, 97u8, 116u8, 32u8] + dec_digits(index)
}

/// The value of the first 8 bytes of `b`, read as a little-endian integer.
pub open spec fn le_bytes_to_u64(b: Seq<u8>) -> u64 {
    (b[0] + b[1] * 0x100 + b[2] * 0x1_0000 + b[3] * 0x100_0000 + b[4] * 0x1_0000_0000
        + b[5] * 0x100_0000_0000 + b[6] * 0x1_0000_0000_0000 + b[7]
        * 0x100_0000_0000_0000) as u64
}

/// The candidate group element of attempt `j`: the digest of the domain
/// salted with the attempt counter, reduced modulo the group order.
pub open spec fn candidate_value(domain: Seq<u8>, j: nat) -> u64 {
    (le_bytes_to_u64(keccak256_of(domain.push(j as u8))) as int % (GROUP_ORDER as int)) as u64
}

/// The first valid (non-identity) candidate from attempt `j` on, if any
/// attempt below the bound yields one.
pub open spec fn sample_from(domain: Seq<u8>, j: nat) -> Option<u64>
    decreases SAMPLE_ATTEMPTS - j,
{
    if j >= SAMPLE_ATTEMPTS {
        None
    } else if candidate_value(domain, j) != 0 {
        Some(candidate_value(domain, j))
    } else {
        sample_from(domain, j + 1)
    }
}

/// What the sampler returns on a domain: its first valid candidate.
pub open spec fn sample_point(domain: Seq<u8>) -> Option<u64> {
    sample_from(domain, 0)
}

/// Appends the decimal digits of `n` to `out`.
fn push_decimal(n: u64, out: &mut Vec<u8>)
    ensures
        final(out)@ == old(out)@ + dec_digits(n as nat),
    decreases n,
{
    if n < 10 {
        out.push(48 + n as u8);
    } else {
        push_decimal(n / 10, out);
        out.push(48 + (n % 10) as u8);
    }
}

/// Builds the per-window domain string `"{message} at {index}"` as bytes.
pub fn build_salted_domain(message: &[u8], index: u64) -> (r: Vec<u8>)
    ensures
        r@ == salted_domain(message@, index as nat),
{
    let mut out: Vec<u8> = slice_to_vec(message);
    out.push(32);
    out.push(97);
    out.push(116);
    out.push(32);
    push_decimal(index, &mut out);
    proof {
        assert(out@ =~= salted_domain(message@, index as nat));
    }
    out
}

/// Reads the first 8 bytes of a digest as a little-endian integer.
fn le_u64_from_bytes(b: &Vec<u8>) -> (r: u64)
    requires
        b@.len() >= 8,
    ensures
        r == le_bytes_to_u64(b@),
{
    (b[0] as u64) + (b[1] as u64) * 0x100 + (b[2] as u64) * 0x1_0000 + (b[3] as u64) * 0x100_0000
        + (b[4] as u64) * 0x1_0000_0000 + (b[5] as u64) * 0x100_0000_0000 + (b[6] as u64)
        * 0x1_0000_0000_0000 + (b[7] as u64) * 0x100_0000_0000_0000
}

/// Deterministically derives a non-identity group element from a
/// domain-separated byte string, or reports that no valid element was found
/// within the bounded retry policy.
pub fn hash_to_curve(domain: &[u8]) -> (r: Result<Affine, CRHError>)
    ensures
        match r {
            Ok(p) => sample_point(domain@) == Some(p.repr) && p.wf() && p.repr != 0,
            Err(e) => e == CRHError::CurveSamplingFailure && sample_point(domain@) is None,
        },
{
    let mut j: usize = 0;
    while j < SAMPLE_ATTEMPTS
        invariant
            j <= SAMPLE_ATTEMPTS,
            sample_from(domain@, 0) == sample_from(domain@, j as nat),
        decreases SAMPLE_ATTEMPTS - j,
    {
        let mut salted: Vec<u8> = slice_to_vec(domain);
        salted.push(j as u8);
        let digest = keccak256_digest(salted.as_slice());
        let val = le_u64_from_bytes(&digest);
        let c = val % GROUP_ORDER;
        proof {
            assert(salted@ == domain@.push(j as u8));
            assert(c == candidate_value(domain@, j as nat));
        }
        if c != 0 {
            return Ok(Affine { repr: c });
        }
        j += 1;
    }
    Err(CRHError::CurveSamplingFailure)
}

} // verus!
