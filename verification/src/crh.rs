//! The capability contract shared by every hash backend.

use vstd::prelude::*;

verus! {

/// The failures a hash backend can report.
#[derive(Clone, Copy, PartialEq, Eq, Structural, Debug)]
pub enum CRHError {
    /// The input bit-vector exceeds the hasher's total capacity; carries
    /// `(actual_len, window_size, num_windows)`.
    IncorrectInputLength(usize, usize, usize),
    /// The deterministic curve sampler could not derive a valid point within
    /// its bounded retry policy.
    CurveSamplingFailure,
}

/// A collision-resistant hash backend: one `setup` producing reusable
/// parameters, a `hash` from bit-vectors to the backend's output type, an
/// accessor for the parameters, and the window shape the backend was
/// configured with.
pub trait CRH: Sized {
    /// The hash output type.
    type Output;

    /// The persistent state produced by `setup`.
    type Parameters;

    /// Well-formedness of a constructed hasher, established by `setup` and
    /// preserved forever after (the parameters are immutable).
    spec fn wf(&self) -> bool;

    /// What machine limits demand of the configured shape before `setup` can
    /// run at all.
    spec fn setup_pre() -> bool;

    /// The exact relation between a domain string and the outcome of
    /// `setup`: which domains succeed, and what parameters they produce.
    spec fn setup_result(r: &Result<Self, CRHError>, message: Seq<char>) -> bool;

    /// The exact outcome of `hash` on a given input bit-vector.
    spec fn spec_hash(&self, input: Seq<bool>) -> Result<Self::Output, CRHError>;

    /// The parameters a hasher carries.
    spec fn spec_parameters(&self) -> Self::Parameters;

    /// The window shape the backend is configured with.
    spec fn spec_window() -> (usize, usize);

    /// Deterministically derives the backend's parameters from a domain
    /// string.
    fn setup(message: &str) -> (r: Result<Self, CRHError>)
        requires
            Self::setup_pre(),
        ensures
            Self::setup_result(&r, message@),
            (r matches Ok(c) ==> c.wf()),
    ;

    /// Hashes a bit-vector, rejecting inputs beyond the configured capacity.
    fn hash(&self, input: &[bool]) -> (r: Result<Self::Output, CRHError>)
        requires
            self.wf(),
        ensures
            r == self.spec_hash(input@),
    ;

    /// Read-only access to the state `setup` produced.
    fn parameters(&self) -> (r: &Self::Parameters)
        ensures
            *r == self.spec_parameters(),
    ;

    /// The window shape `(NUM_WINDOWS, WINDOW_SIZE)`.
    fn window() -> (r: (usize, usize))
        ensures
            r == Self::spec_window(),
    ;
}

} // verus!
