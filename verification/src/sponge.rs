//! The configuration of the Poseidon sponge and the key-derivation hash that
//! turns a shared point into a pad.

use vstd::prelude::*;
use crate::field::FieldElement;
use crate::group::Point;
use ark_ed_on_bls12_381::{EdwardsAffine, Fq};
use ark_ff::BigInteger256;
use ark_ff::PrimeField;
use ark_sponge::poseidon::{PoseidonParameters, PoseidonSponge};
use ark_sponge::CryptographicSponge;

verus! {

/// The number of field elements in the sponge's state.
pub const STATE_WIDTH: usize = 3;

/// The first element that a Poseidon sponge with the given round numbers,
/// exponent, matrix and round constants squeezes out after it has absorbed
/// the point `(x, y)`, as `ark_sponge` computes it.
pub uninterp spec fn poseidon_digest(
    full_rounds: int,
    partial_rounds: int,
    alpha: int,
    mds: Seq<Seq<int>>,
    ark: Seq<Seq<int>>,
    x: int,
    y: int,
) -> int;

/// The integer values of the rows of a matrix of field elements.
pub open spec fn matrix_values(m: Seq<Vec<FieldElement>>) -> Seq<Seq<int>> {
    Seq::new(m.len(), |i: int| Seq::new(m[i]@.len(), |j: int| m[i]@[j]@))
}

/// A row has the width of the state and holds canonical elements only.
pub open spec fn row_wf(row: Seq<FieldElement>) -> bool {
    &&& row.len() == STATE_WIDTH
    &&& forall|j: int| 0 <= j < row.len() ==> (#[trigger] row[j]).wf()
}

/// Every row of the matrix, up to `upto`, is well formed.
pub open spec fn rows_wf(m: Seq<Vec<FieldElement>>, upto: int) -> bool {
    forall|i: int| 0 <= i < upto ==> row_wf((#[trigger] m[i])@)
}

/// The sponge configuration: round numbers, S-box exponent, the mixing matrix
/// and one row of round constants per round.
#[derive(Clone, Debug)]
pub struct PoseidonConfig {
    pub full_rounds: u32,
    pub partial_rounds: u32,
    pub alpha: u64,
    pub mds: Vec<Vec<FieldElement>>,
    pub ark: Vec<Vec<FieldElement>>,
}

impl PoseidonConfig {
    /// The shapes fit: a square mixing matrix of the state's width, and one
    /// row of round constants of that width for each round.
    pub open spec fn wf(&self) -> bool {
        &&& self.full_rounds + self.partial_rounds <= u32::MAX
        &&& self.ark@.len() == self.full_rounds + self.partial_rounds
        &&& self.mds@.len() == STATE_WIDTH
        &&& rows_wf(self.mds@, self.mds@.len() as int)
        &&& rows_wf(self.ark@, self.ark@.len() as int)
    }

    /// The pad that this configuration derives from a point.
    pub open spec fn digest(&self, x: int, y: int) -> int {
        poseidon_digest(
            self.full_rounds as int,
            self.partial_rounds as int,
            self.alpha as int,
            matrix_values(self.mds@),
            matrix_values(self.ark@),
            x,
            y,
        )
    }

    /// Whether the shapes fit.
    pub fn is_valid(&self) -> (ok: bool)
        ensures
            ok == self.wf(),
    {
        let rounds: u64 = self.full_rounds as u64 + self.partial_rounds as u64;
        if rounds > u32::MAX as u64 {
            return false;
        }
        if self.ark.len() as u64 != rounds || self.mds.len() != STATE_WIDTH {
            return false;
        }
        matrix_is_valid(&self.mds) && matrix_is_valid(&self.ark)
    }

    /// The configuration with the given parts, if their shapes fit.
    pub fn new(
        full_rounds: u32,
        partial_rounds: u32,
        alpha: u64,
        mds: Vec<Vec<FieldElement>>,
        ark: Vec<Vec<FieldElement>>,
    ) -> (config: Option<PoseidonConfig>)
        ensures
            config is Some <==> (PoseidonConfig { full_rounds, partial_rounds, alpha, mds, ark }).wf(),
            config is Some ==> config.unwrap() == (PoseidonConfig {
                full_rounds,
                partial_rounds,
                alpha,
                mds,
                ark,
            }),
    {
        let config = PoseidonConfig { full_rounds, partial_rounds, alpha, mds, ark };
        if config.is_valid() {
            Some(config)
        } else {
            None
        }
    }

    /// The pad derived from a shared point: the point is absorbed into a fresh
    /// sponge and one element is squeezed out.
    pub fn derive_pad(&self, shared: &Point) -> (dh: FieldElement)
        requires
            self.wf(),
            shared.wf(),
        ensures
            dh.wf(),
            dh@ == self.digest(shared.x@, shared.y@),
    {
        squeeze_one(self, shared)
    }
}

/// Whether a row has the state's width and holds canonical elements only.
fn row_is_valid(row: &Vec<FieldElement>) -> (ok: bool)
    ensures
        ok == row_wf(row@),
{
    if row.len() != STATE_WIDTH {
        return false;
    }
    let mut j: usize = 0;
    while j < row.len()
        invariant
            j <= row@.len(),
            forall|t: int| 0 <= t < j ==> (#[trigger] row@[t]).wf(),
        decreases row@.len() - j,
    {
        if !row[j].is_canonical() {
            return false;
        }
        j = j + 1;
    }
    true
}

/// Whether every row of a matrix is valid.
fn matrix_is_valid(m: &Vec<Vec<FieldElement>>) -> (ok: bool)
    ensures
        ok == rows_wf(m@, m@.len() as int),
{
    let mut i: usize = 0;
    while i < m.len()
        invariant
            i <= m@.len(),
            rows_wf(m@, i as int),
        decreases m@.len() - i,
    {
        if !row_is_valid(&m[i]) {
            return false;
        }
        i = i + 1;
    }
    true
}

/// Builds `ark_sponge`'s Poseidon sponge from the configuration, absorbs the
/// affine point and squeezes one field element. Trusted: the result is
/// canonical and depends on the configuration and the point alone.
#[verifier::external_body]
fn squeeze_one(config: &PoseidonConfig, shared: &Point) -> (dh: FieldElement)
    requires
        config.wf(),
        shared.wf(),
    ensures
        dh.wf(),
        dh@ == poseidon_digest(
            config.full_rounds as int,
            config.partial_rounds as int,
            config.alpha as int,
            matrix_values(config.mds@),
            matrix_values(config.ark@),
            shared.x@,
            shared.y@,
        ),
{
    let fq = |e: &FieldElement| Fq::from_repr(BigInteger256(e.limbs())).unwrap();
    let row = |r: &Vec<FieldElement>| -> Vec<Fq> { r.iter().map(fq).collect() };
    let mut sponge = PoseidonSponge::new(&PoseidonParameters::new(
        config.full_rounds,
        config.partial_rounds,
        config.alpha,
        config.mds.iter().map(row).collect(),
        config.ark.iter().map(row).collect(),
    ));
    sponge.absorb(&EdwardsAffine::new(fq(&shared.x), fq(&shared.y)));
    FieldElement::of_limbs(sponge.squeeze_field_elements::<Fq>(1).remove(0).into_repr().0)
}

} // verus!
