//! Witness generation for the squaring circuit between two parties, as
//! resumable runs: a shared start value is squared round by round, and the
//! last value of the chain is opened as the public input.

use crate::beaver::BeaverSource;
use crate::circuit::RepeatedSquaringCircuit;
use crate::dealing::values;
use crate::error::MpcError;
use crate::field::Fr;
use crate::protocol::Pending;
use crate::protocol::PendingView;
use crate::protocol::Step;
use crate::protocol::StepView;
use crate::protocol::payload;
use crate::protocol::resume;
use crate::wire::MpcField;
use crate::wire::Value;
use crate::wire::mul_step;
use crate::wire::publicize_step;
use vstd::prelude::*;

verus! {

/// The models of a sequence of values.
pub open spec fn field_values(v: Seq<MpcField>) -> Seq<Value> {
    Seq::new(v.len(), |i: int| v[i]@)
}

/// Model of [`SquaringRun`].
pub struct RunView {
    pub chain: Seq<Value>,
    pub remaining: nat,
    pub pending: PendingView,
}

/// Model of [`SquaringProgress`].
pub enum ProgressView {
    Done(Seq<Value>),
    Exchange(RunView),
}

/// Extends the chain by squaring its last value, `remaining` times, as far
/// as that is local. The first square that needs the peer draws a triple
/// from the source and stops the run in its round. The result is where the
/// run stands and what is left of the source.
pub open spec fn advance<B: BeaverSource>(chain: Seq<Value>, remaining: nat, src: B) -> (
    ProgressView,
    B,
)
    decreases remaining,
{
    if remaining == 0 || chain.len() == 0 {
        (ProgressView::Done(chain), src)
    } else {
        match mul_step(chain.last(), chain.last(), src.next_triple()) {
            StepView::Done(v) => advance(chain.push(v), (remaining - 1) as nat, src),
            StepView::Exchange(p) => (
                ProgressView::Exchange(RunView { chain, remaining, pending: p }),
                src.after_triple(),
            ),
        }
    }
}

/// What a run does with the step that its round went on to: a finished
/// square joins the chain and the run advances; anything else is waited
/// for.
pub open spec fn absorb<B: BeaverSource>(run: RunView, step: StepView, src: B) -> (
    ProgressView,
    B,
) {
    match step {
        StepView::Done(v) => advance(
            run.chain.push(v),
            if run.remaining == 0 {
                0
            } else {
                (run.remaining - 1) as nat
            },
            src,
        ),
        StepView::Exchange(p) => (
            ProgressView::Exchange(
                RunView { chain: run.chain, remaining: run.remaining, pending: p },
            ),
            src,
        ),
    }
}

/// A chain of squarings that waits for the peer in the round of one
/// square.
#[derive(Debug)]
pub struct SquaringRun {
    chain: Vec<MpcField>,
    remaining: usize,
    pending: Pending,
}

/// Where the computation of a chain stands.
#[derive(Debug)]
pub enum SquaringProgress {
    /// The chain is complete.
    Done(Vec<MpcField>),
    /// A round is to be taken.
    Exchange(SquaringRun),
}

impl View for SquaringRun {
    type V = RunView;

    closed spec fn view(&self) -> RunView {
        RunView {
            chain: field_values(self.chain@),
            remaining: self.remaining as nat,
            pending: self.pending@,
        }
    }
}

impl View for SquaringProgress {
    type V = ProgressView;

    open spec fn view(&self) -> ProgressView {
        match *self {
            SquaringProgress::Done(chain) => ProgressView::Done(field_values(chain@)),
            SquaringProgress::Exchange(run) => ProgressView::Exchange(run@),
        }
    }
}

/// Extends the chain as far as that is local.
fn advance_run<B: BeaverSource>(initial: Vec<MpcField>, count: usize, src: &mut B) -> (p:
    SquaringProgress)
    ensures
        (p@, *final(src)) == advance(field_values(initial@), count as nat, *old(src)),
{
    let ghost start = field_values(initial@);
    let ghost total = count as nat;
    let mut chain = initial;
    let mut remaining: usize = count;
    while remaining > 0 && chain.len() > 0
        invariant
            *src == *old(src),
            start == field_values(initial@),
            total == count as nat,
            advance(field_values(chain@), remaining as nat, *src) == advance(
                start,
                total,
                *old(src),
            ),
        decreases remaining,
    {
        let last = chain[chain.len() - 1];
        let ghost before = field_values(chain@);
        assert(before.last() == last@);
        match last.square(src) {
            Step::Done(v) => {
                chain.push(v);
                proof {
                    assert(field_values(chain@) =~= before.push(v@));
                }
                remaining = remaining - 1;
            },
            Step::Exchange(pending) => {
                let run = SquaringRun { chain, remaining, pending };
                proof {
                    assert(run@.chain == before);
                    assert(advance(before, remaining as nat, *old(src)) == (
                        ProgressView::Exchange(run@),
                        *src,
                    ));
                }
                return SquaringProgress::Exchange(run);
            },
        }
    }
    SquaringProgress::Done(chain)
}

impl RepeatedSquaringCircuit<MpcField> {
    /// Begins the chain of `squarings` squarings of `f`. A public start
    /// gives the whole chain at once and leaves the source alone; a shared
    /// one draws one triple and takes one round for every squaring.
    pub fn from_start<B: BeaverSource>(f: MpcField, squarings: usize, src: &mut B) -> (p:
        SquaringProgress)
        ensures
            (p@, *final(src)) == advance(seq![f@], squarings as nat, *old(src)),
    {
        let mut chain: Vec<MpcField> = Vec::new();
        chain.push(f);
        proof {
            assert(field_values(chain@) =~= seq![f@]);
        }
        advance_run(chain, squarings, src)
    }
}

impl SquaringRun {
    /// The bytes to send to the peer in this round.
    pub fn payload(&self) -> (out: Vec<u8>)
        ensures
            out@ == payload(self@.pending),
    {
        self.pending.payload()
    }

    /// Takes the peer's payload of this round and goes on with the chain,
    /// drawing the triple of the next round if there is one. On an error
    /// the source is left alone.
    pub fn resume<B: BeaverSource>(self, reply: &[u8], am_first: bool, src: &mut B) -> (r: Result<
        SquaringProgress,
        MpcError,
    >)
        ensures
            match resume(self@.pending, reply@, am_first) {
                Ok(step) => r matches Ok(p) && (p@, *final(src)) == absorb(self@, step, *old(src)),
                Err(e) => r matches Err(f) && f == e && *final(src) == *old(src),
            },
    {
        let ghost run = self@;
        let step = match self.pending.resume(reply, am_first) {
            Ok(step) => step,
            Err(e) => {
                return Err(e);
            },
        };
        match step {
            Step::Done(v) => {
                let mut chain = self.chain;
                chain.push(v);
                proof {
                    assert(field_values(chain@) =~= run.chain.push(v@));
                }
                let remaining: usize = if self.remaining > 0 {
                    self.remaining - 1
                } else {
                    0
                };
                Ok(advance_run(chain, remaining, src))
            },
            Step::Exchange(pending) => {
                let next = SquaringRun { chain: self.chain, remaining: self.remaining, pending };
                proof {
                    assert(next@ == (RunView {
                        chain: run.chain,
                        remaining: run.remaining,
                        pending: pending@,
                    }));
                }
                Ok(SquaringProgress::Exchange(next))
            },
        }
    }
}

/// The models of the values of a circuit.
pub open spec fn circuit_values(c: Seq<Option<MpcField>>) -> Seq<Option<Value>> {
    Seq::new(
        c.len(),
        |i: int|
            match c[i] {
                Some(v) => Some(v@),
                None => None,
            },
    )
}

/// The values of a circuit that holds the whole of a chain.
pub open spec fn whole(chain: Seq<Value>) -> Seq<Option<Value>> {
    Seq::new(chain.len(), |i: int| Some(chain[i]))
}

/// Model of [`MpcRun`].
pub enum MpcRunView {
    Squaring { run: RunView, check: bool },
    Opening { chain: Seq<Option<Value>>, pending: PendingView },
}

/// Model of [`MpcProgress`].
pub enum MpcProgressView {
    Done { chain: Seq<Option<Value>>, public_inputs: Seq<nat> },
    Exchange(MpcRunView),
}

/// Where the run stands once the chain is complete and the opening of its
/// last value has come to `step`: the number that a finished step holds is
/// the one public input.
pub open spec fn opening(chain: Seq<Option<Value>>, step: StepView) -> MpcProgressView {
    match step {
        StepView::Done(v) => MpcProgressView::Done { chain, public_inputs: seq![v.held()] },
        StepView::Exchange(pending) => MpcProgressView::Exchange(
            MpcRunView::Opening { chain, pending },
        ),
    }
}

/// Where the preparation stands when the chain stands at `p`: a run of
/// squarings goes on; a complete chain has its last value made public, with
/// the comparison if `check` asks for it. A chain of no values has no
/// public input.
pub open spec fn after_chain(p: ProgressView, check: bool) -> MpcProgressView {
    match p {
        ProgressView::Exchange(run) => MpcProgressView::Exchange(
            MpcRunView::Squaring { run, check },
        ),
        ProgressView::Done(chain) => if chain.len() == 0 {
            MpcProgressView::Done { chain: whole(chain), public_inputs: Seq::empty() }
        } else {
            opening(whole(chain), publicize_step(chain.last(), check))
        },
    }
}

/// The beginning of the preparation of a joint statement: this party's
/// share of the start is squared `squarings` times with the peer, one
/// triple and one round for each squaring, and then the last value is made
/// public.
pub open spec fn mpc_begin<B: BeaverSource>(share: nat, squarings: nat, check: bool, src: B) -> (
    MpcProgressView,
    B,
) {
    let (p, after) = advance(seq![Value::Shared(share)], squarings, src);
    (after_chain(p, check), after)
}

/// What a party in state `run` does with the peer's payload, and what is
/// left of the source.
pub open spec fn mpc_resume<B: BeaverSource>(
    run: MpcRunView,
    reply: Seq<u8>,
    am_first: bool,
    src: B,
) -> Result<(MpcProgressView, B), MpcError> {
    match run {
        MpcRunView::Squaring { run, check } => match resume(run.pending, reply, am_first) {
            Ok(step) => {
                let (p, after) = absorb(run, step, src);
                Ok((after_chain(p, check), after))
            },
            Err(e) => Err(e),
        },
        MpcRunView::Opening { chain, pending } => match resume(pending, reply, am_first) {
            Ok(step) => Ok((opening(chain, step), src)),
            Err(e) => Err(e),
        },
    }
}

/// What a party sends in the round that `run` waits in.
pub open spec fn mpc_payload(run: MpcRunView) -> Seq<u8> {
    match run {
        MpcRunView::Squaring { run, .. } => payload(run.pending),
        MpcRunView::Opening { pending, .. } => payload(pending),
    }
}

/// The statement that the two parties prove together: the circuit over
/// this party's shares, and the public input.
#[derive(Debug)]
pub struct MpcJob {
    pub circuit: RepeatedSquaringCircuit<MpcField>,
    pub public_inputs: Vec<Fr>,
}

/// The preparation of a joint proof, waiting for the peer.
#[derive(Debug)]
pub enum MpcRun {
    /// The chain is being squared; `check` asks for the comparison of the
    /// public input.
    Squaring { run: SquaringRun, check: bool },
    /// The last value is being opened.
    Opening { circuit: RepeatedSquaringCircuit<MpcField>, pending: Pending },
}

/// Where the preparation stands.
#[derive(Debug)]
pub enum MpcProgress {
    /// The statement is ready.
    Done(MpcJob),
    /// A round is to be taken.
    Exchange(MpcRun),
}

impl View for MpcRun {
    type V = MpcRunView;

    open spec fn view(&self) -> MpcRunView {
        match *self {
            MpcRun::Squaring { run, check } => MpcRunView::Squaring { run: run@, check },
            MpcRun::Opening { circuit, pending } => MpcRunView::Opening {
                chain: circuit_values(circuit@),
                pending: pending@,
            },
        }
    }
}

impl View for MpcProgress {
    type V = MpcProgressView;

    open spec fn view(&self) -> MpcProgressView {
        match *self {
            MpcProgress::Done(job) => MpcProgressView::Done {
                chain: circuit_values(job.circuit@),
                public_inputs: values(job.public_inputs@),
            },
            MpcProgress::Exchange(run) => MpcProgressView::Exchange(run@),
        }
    }
}

/// Where the preparation stands once the opening has come to `step`.
fn after_opening(circuit: RepeatedSquaringCircuit<MpcField>, step: Step) -> (p: MpcProgress)
    ensures
        p@ == opening(circuit_values(circuit@), step@),
{
    match step {
        Step::Done(v) => {
            let mut public_inputs: Vec<Fr> = Vec::new();
            public_inputs.push(v.unwrap_as_public());
            proof {
                assert(values(public_inputs@) =~= seq![v@.held()]);
            }
            MpcProgress::Done(MpcJob { circuit, public_inputs })
        },
        Step::Exchange(pending) => MpcProgress::Exchange(MpcRun::Opening { circuit, pending }),
    }
}

/// Where the preparation stands when the chain stands at `p`.
fn after_squaring(p: SquaringProgress, check: bool) -> (r: MpcProgress)
    ensures
        r@ == after_chain(p@, check),
{
    match p {
        SquaringProgress::Exchange(run) => MpcProgress::Exchange(MpcRun::Squaring { run, check }),
        SquaringProgress::Done(chain) => {
            let ghost all = field_values(chain@);
            let n: usize = chain.len();
            if n == 0 {
                let circuit = RepeatedSquaringCircuit::from_chain(chain);
                let public_inputs: Vec<Fr> = Vec::new();
                proof {
                    assert(circuit_values(circuit@) =~= whole(all));
                    assert(values(public_inputs@) =~= Seq::<nat>::empty());
                }
                MpcProgress::Done(MpcJob { circuit, public_inputs })
            } else {
                let last = chain[n - 1];
                let circuit = RepeatedSquaringCircuit::from_chain(chain);
                proof {
                    assert(circuit_values(circuit@) =~= whole(all));
                    assert(all.last() == last@);
                }
                after_opening(circuit, last.publicize(check))
            }
        },
    }
}

impl MpcRun {
    /// Begins the preparation from this party's share of the start value.
    pub fn begin<B: BeaverSource>(share: Fr, squarings: usize, check: bool, src: &mut B) -> (p:
        MpcProgress)
        ensures
            (p@, *final(src)) == mpc_begin(share@, squarings as nat, check, *old(src)),
    {
        let start = MpcField::from_add_shared(share);
        let chain = RepeatedSquaringCircuit::<MpcField>::from_start(start, squarings, src);
        after_squaring(chain, check)
    }

    /// The bytes to send to the peer in this round.
    pub fn payload(&self) -> (out: Vec<u8>)
        ensures
            out@ == mpc_payload(self@),
    {
        match self {
            MpcRun::Squaring { run, .. } => run.payload(),
            MpcRun::Opening { pending, .. } => pending.payload(),
        }
    }

    /// Takes the peer's payload of this round and goes on, drawing the
    /// triple of the next squaring if there is one. On an error the source
    /// is left alone.
    pub fn resume<B: BeaverSource>(self, reply: &[u8], am_first: bool, src: &mut B) -> (r: Result<
        MpcProgress,
        MpcError,
    >)
        ensures
            match mpc_resume(self@, reply@, am_first, *old(src)) {
                Ok((next, after)) => r matches Ok(p) && p@ == next && *final(src) == after,
                Err(e) => r matches Err(f) && f == e && *final(src) == *old(src),
            },
    {
        match self {
            MpcRun::Squaring { run, check } => {
                let p = match run.resume(reply, am_first, src) {
                    Ok(p) => p,
                    Err(e) => {
                        return Err(e);
                    },
                };
                Ok(after_squaring(p, check))
            },
            MpcRun::Opening { circuit, pending } => {
                let step = match pending.resume(reply, am_first) {
                    Ok(step) => step,
                    Err(e) => {
                        return Err(e);
                    },
                };
                Ok(after_opening(circuit, step))
            },
        }
    }
}

} // verus!
