//! What is proved with Marlin: the statements of the squaring circuit and
//! the sizes that its universal setup is made for.

use crate::beaver::BeaverSource;
use crate::field::Fr;
use crate::groth::LocalJob;
use crate::groth::Prover;
use crate::groth::job;
use crate::squarings::MpcProgress;
use crate::squarings::MpcRun;
use crate::squarings::mpc_begin;
use vstd::prelude::*;

verus! {

/// The sizes that the universal setup supports.
#[derive(Clone, Copy, Debug, PartialEq, Eq, Structural)]
pub struct MarlinBounds {
    pub num_constraints: usize,
    pub num_variables: usize,
    pub num_non_zero: usize,
}

/// The sizes for `n` squarings: `n` constraints, `n + 2` variables and
/// `3 * n` entries that are not 0.
pub open spec fn bounds_for(n: nat) -> (nat, nat, nat) {
    (n, n + 2, 3 * n)
}

/// The sizes of the setup for `n` squarings, if they fit the machine.
pub fn bounds(n: usize) -> (b: Option<MarlinBounds>)
    ensures
        match b {
            Some(b) => (b.num_constraints as nat, b.num_variables as nat, b.num_non_zero as nat)
                == bounds_for(n as nat),
            None => bounds_for(n as nat).1 > usize::MAX || bounds_for(n as nat).2 > usize::MAX,
        },
{
    if n > usize::MAX - 2 || n > usize::MAX / 3 {
        None
    } else {
        Some(MarlinBounds { num_constraints: n, num_variables: n + 2, num_non_zero: 3 * n })
    }
}

/// The statement of `n` squarings of `start` in the plain field, and the
/// sizes of its setup, if they fit the machine.
pub fn local(start: Fr, n: usize) -> (r: Option<(MarlinBounds, LocalJob)>)
    ensures
        match r {
            Some((b, j)) => {
                &&& (b.num_constraints as nat, b.num_variables as nat, b.num_non_zero as nat)
                    == bounds_for(n as nat)
                &&& j.states(start@, n as nat)
                &&& j.prover == Prover::Own
            },
            None => bounds_for(n as nat).1 > usize::MAX || bounds_for(n as nat).2 > usize::MAX,
        },
{
    match bounds(n) {
        Some(b) => Some((b, job(start, n, Prover::Own))),
        None => None,
    }
}

/// Begins the preparation of the joint statement of `n` squarings of a
/// shared start value, of which `share` is this party's summand, with the
/// sizes of its setup. If the sizes do not fit the machine nothing is
/// begun and the source is left alone.
pub fn mpc<B: BeaverSource>(share: Fr, n: usize, check: bool, src: &mut B) -> (r: Option<
    (MarlinBounds, MpcProgress),
>)
    ensures
        match r {
            Some((b, p)) => {
                &&& (b.num_constraints as nat, b.num_variables as nat, b.num_non_zero as nat)
                    == bounds_for(n as nat)
                &&& (p@, *final(src)) == mpc_begin(share@, n as nat, check, *old(src))
            },
            None => {
                &&& bounds_for(n as nat).1 > usize::MAX || bounds_for(n as nat).2 > usize::MAX
                &&& *final(src) == *old(src)
            },
        },
{
    match bounds(n) {
        Some(b) => Some((b, MpcRun::begin(share, n, check, src))),
        None => None,
    }
}

} // verus!
