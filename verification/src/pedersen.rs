//! The Pedersen collision-resistant hash.
//!
//! `setup` derives one independent generator per window from a
//! domain-separated seed string and precomputes each window's table of
//! successive doublings.  `hash` right-pads a bit-vector to the configured
//! capacity, partitions it into window-sized chunks, and folds it into a
//! single group element: bit `k` of chunk `i` selects `powers[i][k]` as a
//! term of the sum.  Both are pure functions of their inputs.

use vstd::prelude::*;
use vstd::slice::slice_to_vec;
use vstd::utf8::encode_utf8;
use crate::crh::{CRH, CRHError};
use crate::group::{group_add, pow2_times, Affine, Projective, GROUP_ORDER};
use crate::sampler::{build_salted_domain, hash_to_curve, salted_domain, sample_point};

verus! {

/// `input` right-padded with `false` up to length `cap`.
pub open spec fn padded(input: Seq<bool>, cap: nat) -> Seq<bool>
    recommends
        input.len() <= cap,
{
    input + Seq::new((cap - input.len()) as nat, |j: int| false)
}

/// The fold of the first `k` bits of one chunk against one window's power
/// table: bit `j` set selects `powers[j]` as a term of the group sum.
pub open spec fn window_fold(bits: Seq<bool>, powers: Seq<u64>, k: nat) -> u64
    decreases k,
{
    if k == 0 {
        0u64
    } else {
        group_add(
            window_fold(bits, powers, (k - 1) as nat),
            if bits[k - 1] {
                powers[k - 1]
            } else {
                0u64
            },
        )
    }
}

/// The fold of the first `i` windows: chunk `w` of the padded bit-vector is
/// folded against power table `w`, and the window sums are added up.
pub open spec fn pedersen_fold(bits: Seq<bool>, bases: Seq<Seq<u64>>, ws: nat, i: nat) -> u64
    decreases i,
{
    if i == 0 {
        0u64
    } else {
        group_add(
            pedersen_fold(bits, bases, ws, (i - 1) as nat),
            window_fold(
                bits.subrange(((i - 1) * ws) as int, (i * ws) as int),
                bases[i - 1],
                ws,
            ),
        )
    }
}

/// The generator the sampler assigns to window `i` of a seed message
/// (meaningful where sampling succeeds).
pub open spec fn window_generator(message: Seq<u8>, i: nat) -> u64 {
    match sample_point(salted_domain(message, i)) {
        Some(g) => g,
        None => 0u64,
    }
}

/// Whether the sampler succeeds on every window index below `n` for this
/// seed message.
pub open spec fn all_windows_sample(message: Seq<u8>, n: nat) -> bool {
    forall|i: nat| i < n ==> (#[trigger] sample_point(salted_domain(message, i))) is Some
}

/// The windowed Pedersen hasher: `NUM_WINDOWS` windows of `WINDOW_SIZE`
/// precomputed powers each.  The table is created once by `setup` and never
/// mutated afterwards.
#[derive(Debug, Clone, PartialEq, Eq, PartialOrd, Ord)]
pub struct PedersenCRH<const NUM_WINDOWS: usize, const WINDOW_SIZE: usize> {
    pub bases: Vec<Vec<Projective>>,
}

impl<const NUM_WINDOWS: usize, const WINDOW_SIZE: usize> PedersenCRH<NUM_WINDOWS, WINDOW_SIZE> {
    /// The power table as a sequence of sequences of group values.
    pub open spec fn bases_seq(&self) -> Seq<Seq<u64>> {
        self.bases@.map_values(|w: Vec<Projective>| w@.map_values(|p: Projective| p.repr))
    }

    /// Well-formed parameters: the configured shape, with every entry a
    /// reduced group element, and a capacity that fits the machine.
    pub open spec fn params_wf(&self) -> bool {
        &&& self.bases@.len() == NUM_WINDOWS
        &&& forall|i: int|
            0 <= i < NUM_WINDOWS ==> (#[trigger] self.bases@[i])@.len() == WINDOW_SIZE
        &&& forall|i: int, k: int|
            0 <= i < NUM_WINDOWS && 0 <= k < WINDOW_SIZE ==> (#[trigger] self.bases@[i]@[k]).wf()
        &&& NUM_WINDOWS * WINDOW_SIZE <= usize::MAX
    }

    /// The exact table `setup` derives from a seed message: entry `k` of
    /// window `i` is `2^k` times the generator sampled for window `i`.
    pub open spec fn derived_from(&self, message: Seq<u8>) -> bool {
        &&& self.params_wf()
        &&& forall|i: int, k: int|
            0 <= i < NUM_WINDOWS && 0 <= k < WINDOW_SIZE ==> #[trigger] self.bases_seq()[i][k]
                == pow2_times(k as nat, window_generator(message, i as nat))
    }

    /// The group value `hash` folds a valid input to.
    pub open spec fn spec_hash_value(&self, input: Seq<bool>) -> u64 {
        pedersen_fold(
            padded(input, (NUM_WINDOWS * WINDOW_SIZE) as nat),
            self.bases_seq(),
            WINDOW_SIZE as nat,
            NUM_WINDOWS as nat,
        )
    }

    /// The parameter export hook for circuit embedding.  The Pedersen
    /// parameters are treated as public circuit constants baked in
    /// elsewhere, so this deliberately exports no field elements.
    pub fn to_field_elements(&self) -> (r: Vec<u64>)
        ensures
            r@.len() == 0,
    {
        Vec::new()
    }
}

impl<const NUM_WINDOWS: usize, const WINDOW_SIZE: usize> CRH for PedersenCRH<
    NUM_WINDOWS,
    WINDOW_SIZE,
> {
    type Output = Affine;

    type Parameters = Vec<Vec<Projective>>;

    open spec fn wf(&self) -> bool {
        self.params_wf()
    }

    open spec fn setup_pre() -> bool {
        NUM_WINDOWS * WINDOW_SIZE <= usize::MAX
    }

    open spec fn setup_result(r: &Result<Self, CRHError>, message: Seq<char>) -> bool {
        match r {
            Ok(c) => all_windows_sample(encode_utf8(message), NUM_WINDOWS as nat)
                && c.derived_from(encode_utf8(message)),
            Err(e) => *e == CRHError::CurveSamplingFailure && !all_windows_sample(
                encode_utf8(message),
                NUM_WINDOWS as nat,
            ),
        }
    }

    open spec fn spec_hash(&self, input: Seq<bool>) -> Result<Affine, CRHError> {
        if input.len() <= NUM_WINDOWS * WINDOW_SIZE {
            Ok(Affine { repr: self.spec_hash_value(input) })
        } else {
            Err(
                CRHError::IncorrectInputLength(input.len() as usize, WINDOW_SIZE, NUM_WINDOWS),
            )
        }
    }

    open spec fn spec_parameters(&self) -> Vec<Vec<Projective>> {
        self.bases
    }

    open spec fn spec_window() -> (usize, usize) {
        (NUM_WINDOWS, WINDOW_SIZE)
    }

    fn setup(message: &str) -> (r: Result<Self, CRHError>) {
        let msg_bytes: &[u8] = message.as_bytes();
        let mut bases: Vec<Vec<Projective>> = Vec::new();
        let mut i: usize = 0;
        while i < NUM_WINDOWS
            invariant
                i <= NUM_WINDOWS,
                msg_bytes@ == encode_utf8(message@),
                bases@.len() == i,
                forall|w: nat|
                    w < i ==> (#[trigger] sample_point(salted_domain(msg_bytes@, w))) is Some,
                forall|i2: int|
                    0 <= i2 < i ==> (#[trigger] bases@[i2])@.len() == WINDOW_SIZE,
                forall|i2: int, k: int|
                    0 <= i2 < i && 0 <= k < WINDOW_SIZE ==> (#[trigger] bases@[i2]@[k]).wf(),
                forall|i2: int, k: int|
                    0 <= i2 < i && 0 <= k < WINDOW_SIZE ==> (#[trigger] bases@[i2]@[k]).repr
                        == pow2_times(k as nat, window_generator(msg_bytes@, i2 as nat)),
            decreases NUM_WINDOWS - i,
        {
            let domain = build_salted_domain(msg_bytes, i as u64);
            proof {
                assert(domain@ == salted_domain(msg_bytes@, i as nat));
            }
            let generator = match hash_to_curve(domain.as_slice()) {
                Ok(p) => p,
                Err(e) => {
                    proof {
                        let msg = encode_utf8(message@);
                        assert(sample_point(salted_domain(msg, i as nat)) is None);
                        assert(!all_windows_sample(msg, NUM_WINDOWS as nat)) by {
                            if all_windows_sample(msg, NUM_WINDOWS as nat) {
                                assert(sample_point(salted_domain(msg, i as nat)) is Some);
                            }
                        }
                    }
                    return Err(e);
                },
            };
            proof {
                assert(sample_point(salted_domain(msg_bytes@, i as nat)) == Some(generator.repr));
                assert(window_generator(msg_bytes@, i as nat) == generator.repr);
            }
            let mut base = generator.into_projective();
            let mut powers: Vec<Projective> = Vec::new();
            let mut k: usize = 0;
            while k < WINDOW_SIZE
                invariant
                    k <= WINDOW_SIZE,
                    powers@.len() == k,
                    base.wf(),
                    base.repr == pow2_times(k as nat, window_generator(msg_bytes@, i as nat)),
                    forall|k2: int| 0 <= k2 < k ==> (#[trigger] powers@[k2]).wf(),
                    forall|k2: int|
                        0 <= k2 < k ==> (#[trigger] powers@[k2]).repr == pow2_times(
                            k2 as nat,
                            window_generator(msg_bytes@, i as nat),
                        ),
                decreases WINDOW_SIZE - k,
            {
                powers.push(base);
                base.double_in_place();
                k += 1;
            }
            bases.push(powers);
            i += 1;
        }
        let result = PedersenCRH { bases };
        proof {
            assert forall|i2: int, k: int|
                0 <= i2 < NUM_WINDOWS && 0 <= k < WINDOW_SIZE implies #[trigger] result.bases_seq()[i2][k]
                == pow2_times(k as nat, window_generator(encode_utf8(message@), i2 as nat)) by {
                assert(result.bases_seq()[i2] == result.bases@[i2]@.map_values(
                    |p: Projective| p.repr,
                ));
            }
        }
        Ok(result)
    }

    fn hash(&self, input: &[bool]) -> (r: Result<Affine, CRHError>) {
        let cap: usize = NUM_WINDOWS * WINDOW_SIZE;
        if input.len() > cap {
            return Err(CRHError::IncorrectInputLength(input.len(), WINDOW_SIZE, NUM_WINDOWS));
        }
        let mut padded_bits: Vec<bool> = slice_to_vec(input);
        while padded_bits.len() < cap
            invariant
                input@.len() <= padded_bits@.len() <= cap,
                padded_bits@.subrange(0, input@.len() as int) == input@,
                forall|j: int|
                    input@.len() <= j < padded_bits@.len() ==> #[trigger] padded_bits@[j] == false,
            decreases cap - padded_bits.len(),
        {
            padded_bits.push(false);
        }
        proof {
            assert(padded_bits@ =~= padded(input@, cap as nat));
        }
        let mut acc = Projective::zero();
        let mut pos: usize = 0;
        let mut i: usize = 0;
        while i < NUM_WINDOWS
            invariant
                self.params_wf(),
                i <= NUM_WINDOWS,
                pos == i * WINDOW_SIZE,
                pos <= cap,
                cap == NUM_WINDOWS * WINDOW_SIZE,
                padded_bits@.len() == cap,
                acc.wf(),
                acc.repr == pedersen_fold(
                    padded_bits@,
                    self.bases_seq(),
                    WINDOW_SIZE as nat,
                    i as nat,
                ),
            decreases NUM_WINDOWS - i,
        {
            proof {
                lemma_window_bound(i as int, NUM_WINDOWS as int, WINDOW_SIZE as int);
            }
            let window = &self.bases[i];
            let mut wacc = Projective::zero();
            let mut k: usize = 0;
            let ghost chunk = padded_bits@.subrange(
                (i * WINDOW_SIZE) as int,
                (i * WINDOW_SIZE + WINDOW_SIZE) as int,
            );
            while k < WINDOW_SIZE
                invariant
                    self.params_wf(),
                    i < NUM_WINDOWS,
                    k <= WINDOW_SIZE,
                    pos == i * WINDOW_SIZE + k,
                    cap == NUM_WINDOWS * WINDOW_SIZE,
                    i * WINDOW_SIZE >= 0,
                    i * WINDOW_SIZE + WINDOW_SIZE <= cap,
                    padded_bits@.len() == cap,
                    window == self.bases@[i as int],
                    chunk == padded_bits@.subrange(
                        (i * WINDOW_SIZE) as int,
                        (i * WINDOW_SIZE + WINDOW_SIZE) as int,
                    ),
                    wacc.wf(),
                    wacc.repr == window_fold(chunk, self.bases_seq()[i as int], k as nat),
                decreases WINDOW_SIZE - k,
            {
                proof {
                    assert(pos < cap);
                    assert(chunk[k as int] == padded_bits@[pos as int]);
                    assert(self.bases_seq()[i as int][k as int] == self.bases@[i as int]@[
                        k as int
                    ].repr);
                }
                if padded_bits[pos] {
                    wacc = wacc.add(&window[k]);
                }
                pos = pos + 1;
                k += 1;
            }
            acc = acc.add(&wacc);
            i += 1;
            proof {
                lemma_window_bound(i as int - 1, NUM_WINDOWS as int, WINDOW_SIZE as int);
                assert(acc.repr == pedersen_fold(
                    padded_bits@,
                    self.bases_seq(),
                    WINDOW_SIZE as nat,
                    i as nat,
                ));
            }
        }
        Ok(acc.into_affine())
    }

    fn parameters(&self) -> (r: &Vec<Vec<Projective>>) {
        &self.bases
    }

    fn window() -> (r: (usize, usize)) {
        (NUM_WINDOWS, WINDOW_SIZE)
    }
}

/// Determinism: two parameter tables derived from the same seed message are
/// identical, so independent `setup` runs on one domain agree exactly.
pub proof fn lemma_setup_deterministic<const NUM_WINDOWS: usize, const WINDOW_SIZE: usize>(
    a: &PedersenCRH<NUM_WINDOWS, WINDOW_SIZE>,
    b: &PedersenCRH<NUM_WINDOWS, WINDOW_SIZE>,
    message: Seq<u8>,
)
    requires
        a.derived_from(message),
        b.derived_from(message),
    ensures
        a.bases_seq() == b.bases_seq(),
{
    assert forall|i: int| 0 <= i < NUM_WINDOWS implies #[trigger] a.bases_seq()[i]
        =~= b.bases_seq()[i] by {
        assert(a.bases@[i]@.len() == WINDOW_SIZE);
        assert(b.bases@[i]@.len() == WINDOW_SIZE);
        assert forall|k: int| 0 <= k < WINDOW_SIZE implies #[trigger] a.bases_seq()[i][k]
            == b.bases_seq()[i][k] by {
            assert(a.bases_seq()[i][k] == pow2_times(
                k as nat,
                window_generator(message, i as nat),
            ));
        }
    }
    assert(a.bases_seq() =~= b.bases_seq());
}

/// Doubling invariant: every entry of a window's power table is `2^k` times
/// the window's first entry.
pub proof fn lemma_doubling_invariant<const NUM_WINDOWS: usize, const WINDOW_SIZE: usize>(
    c: &PedersenCRH<NUM_WINDOWS, WINDOW_SIZE>,
    message: Seq<u8>,
)
    requires
        c.derived_from(message),
    ensures
        forall|i: int, k: int|
            0 <= i < NUM_WINDOWS && 0 <= k < WINDOW_SIZE ==> #[trigger] c.bases_seq()[i][k]
                == pow2_times(k as nat, c.bases_seq()[i][0]),
{
    assert forall|i: int, k: int|
        0 <= i < NUM_WINDOWS && 0 <= k < WINDOW_SIZE implies #[trigger] c.bases_seq()[i][k]
        == pow2_times(k as nat, c.bases_seq()[i][0]) by {
        assert(c.bases_seq()[i][0] == pow2_times(0, window_generator(message, i as nat)));
        assert(pow2_times(0, window_generator(message, i as nat)) == window_generator(
            message,
            i as nat,
        ));
    }
}

/// Padding transparency: hashing an input and hashing the same input
/// right-padded with `false` (up to any length within capacity) produce the
/// same outcome.
pub proof fn lemma_padding_transparency<const NUM_WINDOWS: usize, const WINDOW_SIZE: usize>(
    c: &PedersenCRH<NUM_WINDOWS, WINDOW_SIZE>,
    input: Seq<bool>,
    m: nat,
)
    requires
        input.len() <= m <= NUM_WINDOWS * WINDOW_SIZE,
    ensures
        c.spec_hash(padded(input, m)) == c.spec_hash(input),
{
    let cap = (NUM_WINDOWS * WINDOW_SIZE) as nat;
    assert(padded(padded(input, m), cap) =~= padded(input, cap));
}

/// The fold of a chunk whose first `k` bits are all `false` selects no term.
proof fn lemma_window_fold_zero(bits: Seq<bool>, powers: Seq<u64>, k: nat)
    requires
        forall|j: int| 0 <= j < k ==> #[trigger] bits[j] == false,
    ensures
        window_fold(bits, powers, k) == 0,
    decreases k,
{
    if k > 0 {
        lemma_window_fold_zero(bits, powers, (k - 1) as nat);
    }
}

/// The fold of an all-`false` bit-vector selects no term in any window.
proof fn lemma_pedersen_fold_zero(bits: Seq<bool>, bases: Seq<Seq<u64>>, ws: nat, i: nat)
    requires
        i * ws <= bits.len(),
        forall|j: int| 0 <= j < bits.len() ==> #[trigger] bits[j] == false,
    ensures
        pedersen_fold(bits, bases, ws, i) == 0,
    decreases i,
{
    if i > 0 {
        assert((i - 1) * ws >= 0 && (i - 1) * ws + ws == i * ws) by (nonlinear_arith)
            requires
                i >= 1,
                ws >= 0,
        ;
        lemma_pedersen_fold_zero(bits, bases, ws, (i - 1) as nat);
        let chunk = bits.subrange(((i - 1) * ws) as int, (i * ws) as int);
        assert forall|j: int| 0 <= j < ws implies #[trigger] chunk[j] == false by {
            assert(chunk[j] == bits[(i - 1) * ws + j]);
        }
        lemma_window_fold_zero(chunk, bases[i - 1], ws);
    }
}

/// Zero input: an all-`false` bit-vector of any valid length hashes to the
/// group identity in affine form.
pub proof fn lemma_zero_input<const NUM_WINDOWS: usize, const WINDOW_SIZE: usize>(
    c: &PedersenCRH<NUM_WINDOWS, WINDOW_SIZE>,
    len: nat,
)
    requires
        c.params_wf(),
        len <= NUM_WINDOWS * WINDOW_SIZE,
    ensures
        c.spec_hash(Seq::new(len, |j: int| false)) == Ok::<Affine, CRHError>(Affine { repr: 0 }),
{
    let cap = (NUM_WINDOWS * WINDOW_SIZE) as nat;
    let zeros = Seq::new(len, |j: int| false);
    let pz = padded(zeros, cap);
    assert forall|j: int| 0 <= j < pz.len() implies #[trigger] pz[j] == false by {
        if j < len {
            assert(pz[j] == zeros[j]);
        }
    }
    assert((NUM_WINDOWS as nat) * (WINDOW_SIZE as nat) <= pz.len());
    lemma_pedersen_fold_zero(pz, c.bases_seq(), WINDOW_SIZE as nat, NUM_WINDOWS as nat);
}

/// A window fold of reduced powers is reduced.
proof fn lemma_window_fold_reduced(bits: Seq<bool>, powers: Seq<u64>, k: nat)
    requires
        k <= powers.len(),
        forall|j: int| 0 <= j < powers.len() ==> #[trigger] powers[j] < GROUP_ORDER,
    ensures
        window_fold(bits, powers, k) < GROUP_ORDER,
    decreases k,
{
    if k > 0 {
        lemma_window_fold_reduced(bits, powers, (k - 1) as nat);
    }
}

/// A fold over windows of reduced powers is reduced.
proof fn lemma_pedersen_fold_reduced(bits: Seq<bool>, bases: Seq<Seq<u64>>, ws: nat, i: nat)
    requires
        i <= bases.len(),
        forall|w: int| 0 <= w < bases.len() ==> (#[trigger] bases[w]).len() == ws,
        forall|w: int, j: int|
            0 <= w < bases.len() && 0 <= j < ws ==> #[trigger] bases[w][j] < GROUP_ORDER,
    ensures
        pedersen_fold(bits, bases, ws, i) < GROUP_ORDER,
    decreases i,
{
    if i > 0 {
        lemma_pedersen_fold_reduced(bits, bases, ws, (i - 1) as nat);
        let chunk = bits.subrange(((i - 1) * ws) as int, (i * ws) as int);
        lemma_window_fold_reduced(chunk, bases[i - 1], ws);
    }
}

/// The hash output is always a reduced (well-formed) group element, so it
/// can be fed back into further group arithmetic.
pub proof fn lemma_hash_output_reduced<const NUM_WINDOWS: usize, const WINDOW_SIZE: usize>(
    c: &PedersenCRH<NUM_WINDOWS, WINDOW_SIZE>,
    input: Seq<bool>,
)
    requires
        c.params_wf(),
    ensures
        c.spec_hash_value(input) < GROUP_ORDER,
        (c.spec_hash(input) matches Ok(p) ==> p.wf()),
{
    assert forall|w: int| 0 <= w < c.bases_seq().len() implies (#[trigger] c.bases_seq()[w]).len()
        == WINDOW_SIZE as nat by {
        assert(c.bases@[w]@.len() == WINDOW_SIZE);
    }
    assert forall|w: int, j: int|
        0 <= w < c.bases_seq().len() && 0 <= j < WINDOW_SIZE as nat implies #[trigger] c.bases_seq()[w][j]
        < GROUP_ORDER by {
        assert(c.bases@[w]@[j].wf());
        assert(c.bases_seq()[w][j] == c.bases@[w]@[j].repr);
    }
    lemma_pedersen_fold_reduced(
        padded(input, (NUM_WINDOWS * WINDOW_SIZE) as nat),
        c.bases_seq(),
        WINDOW_SIZE as nat,
        NUM_WINDOWS as nat,
    );
}

/// Bounds on the bit positions of window `i`: the window's chunk lies below
/// the capacity `nw * ws`.
proof fn lemma_window_bound(i: int, nw: int, ws: int) by (nonlinear_arith)
    requires
        0 <= i < nw,
        0 <= ws,
    ensures
        i * ws >= 0,
        i * ws + ws == (i + 1) * ws,
        (i + 1) * ws <= nw * ws,
{
}

} // verus!
