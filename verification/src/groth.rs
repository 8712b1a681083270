//! What is proved with Groth16: the statements of the squaring circuit,
//! for one party and for two. Key generation, proving and verifying are the
//! caller's; the statement is decided here.

use crate::beaver::BeaverSource;
use crate::circuit::RepeatedSquaringCircuit;
use crate::circuit::is_chain_from;
use crate::circuit::square_chain;
use crate::field::Fr;
use crate::squarings::MpcProgress;
use crate::squarings::MpcRun;
use crate::squarings::mpc_begin;
use vstd::prelude::*;

verus! {

/// Which implementation of the prover runs.
#[derive(Clone, Copy, Debug, PartialEq, Eq, Structural)]
pub enum Prover {
    /// The prover of this project, which also runs over the lifted field.
    Own,
    /// The prover of the proof system's own crate.
    Ark,
}

/// A statement to prove in the plain field: the circuit with its values,
/// the public inputs that the verifier is given, and who proves.
#[derive(Debug)]
pub struct LocalJob {
    pub circuit: RepeatedSquaringCircuit<Fr>,
    pub public_inputs: Vec<Fr>,
    pub prover: Prover,
}

impl LocalJob {
    /// Whether the job is the chain of `n` squarings from `start`, with
    /// the last value as the one public input.
    pub open spec fn states(&self, start: nat, n: nat) -> bool {
        &&& is_chain_from(self.circuit@, start, n)
        &&& self.public_inputs@.len() == 1
        &&& self.public_inputs@[0]@ == square_chain(start, n)
    }
}

/// The job of the given prover for `n` squarings of `start`.
pub fn job(start: Fr, n: usize, prover: Prover) -> (j: LocalJob)
    ensures
        j.states(start@, n as nat),
        j.prover == prover,
{
    let circuit = RepeatedSquaringCircuit::<Fr>::from_start(start, n);
    let mut public_inputs: Vec<Fr> = Vec::new();
    match circuit.value(n) {
        Some(v) => {
            public_inputs.push(v);
        },
        None => {},
    }
    LocalJob { circuit, public_inputs, prover }
}

/// The statement of `n` squarings of `start`, for the prover of this
/// project in the plain field.
pub fn local(start: Fr, n: usize) -> (j: LocalJob)
    ensures
        j.states(start@, n as nat),
        j.prover == Prover::Own,
{
    job(start, n, Prover::Own)
}

/// The statement of `n` squarings of `start`, for the prover of the proof
/// system's own crate.
pub fn local_ark(start: Fr, n: usize) -> (j: LocalJob)
    ensures
        j.states(start@, n as nat),
        j.prover == Prover::Ark,
{
    job(start, n, Prover::Ark)
}

/// Begins the preparation of the joint statement of `n` squarings of a
/// shared start value, of which `share` is this party's summand: the chain
/// is computed with the peer, one triple and one round for each squaring,
/// and then its last value is opened as the public input, and compared if
/// `check` asks for it.
pub fn mpc<B: BeaverSource>(share: Fr, n: usize, check: bool, src: &mut B) -> (p: MpcProgress)
    ensures
        (p@, *final(src)) == mpc_begin(share@, n as nat, check, *old(src)),
{
    MpcRun::begin(share, n, check, src)
}

} // verus!
