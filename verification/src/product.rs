//! Sums and products of many values. A sum is local. A product takes a
//! round for every factor that meets a shared running product while being
//! shared itself, so it is a resumable run.

use crate::beaver::BeaverSource;
use crate::error::MpcError;
use crate::protocol::Pending;
use crate::protocol::PendingView;
use crate::protocol::Step;
use crate::protocol::StepView;
use crate::protocol::payload;
use crate::protocol::resume;
use crate::squarings::field_values;
use crate::wire::MpcField;
use crate::wire::Value;
use crate::wire::add_value;
use crate::wire::mul_step;
use vstd::prelude::*;

verus! {

/// The sum of the values, added from the left to the public constant 0.
pub open spec fn sum_values(values: Seq<Value>, am_first: bool) -> Value
    decreases values.len(),
{
    if values.len() == 0 {
        Value::Public(0)
    } else {
        add_value(sum_values(values.drop_last(), am_first), values.last(), am_first)
    }
}

/// Model of [`ProductRun`].
pub struct ProductRunView {
    pub pending: PendingView,
    pub rest: Seq<Value>,
}

/// Model of [`ProductProgress`].
pub enum ProductProgressView {
    Done(Value),
    Exchange(ProductRunView),
}

/// Multiplies the factors of `rest` onto `acc`, from the left, as far as
/// that is local. The first product that needs the peer draws a triple
/// from the source and stops the run in its round. The result is where the
/// run stands and what is left of the source.
pub open spec fn multiply_on<B: BeaverSource>(acc: Value, rest: Seq<Value>, src: B) -> (
    ProductProgressView,
    B,
)
    decreases rest.len(),
{
    if rest.len() == 0 {
        (ProductProgressView::Done(acc), src)
    } else {
        match mul_step(acc, rest[0], src.next_triple()) {
            StepView::Done(v) => multiply_on(v, rest.drop_first(), src),
            StepView::Exchange(p) => (
                ProductProgressView::Exchange(
                    ProductRunView { pending: p, rest: rest.drop_first() },
                ),
                src.after_triple(),
            ),
        }
    }
}

/// What a run does with the step that its round went on to: a finished
/// product is multiplied on with the rest; anything else is waited for.
pub open spec fn take_factor<B: BeaverSource>(run: ProductRunView, step: StepView, src: B) -> (
    ProductProgressView,
    B,
) {
    match step {
        StepView::Done(v) => multiply_on(v, run.rest, src),
        StepView::Exchange(p) => (
            ProductProgressView::Exchange(ProductRunView { pending: p, rest: run.rest }),
            src,
        ),
    }
}

/// A product that waits for the peer in the round of one multiplication.
#[derive(Debug)]
pub struct ProductRun {
    pending: Pending,
    factors: Vec<MpcField>,
    next: usize,
}

/// Where the computation of a product stands.
#[derive(Debug)]
pub enum ProductProgress {
    /// The product is complete.
    Done(MpcField),
    /// A round is to be taken.
    Exchange(ProductRun),
}

impl View for ProductRun {
    type V = ProductRunView;

    closed spec fn view(&self) -> ProductRunView {
        ProductRunView {
            pending: self.pending@,
            rest: if self.next <= self.factors@.len() {
                field_values(self.factors@).subrange(self.next as int, self.factors@.len() as int)
            } else {
                Seq::empty()
            },
        }
    }
}

impl View for ProductProgress {
    type V = ProductProgressView;

    open spec fn view(&self) -> ProductProgressView {
        match *self {
            ProductProgress::Done(v) => ProductProgressView::Done(v@),
            ProductProgress::Exchange(run) => ProductProgressView::Exchange(run@),
        }
    }
}

/// The factors from position `from` on.
spec fn factors_from(factors: Seq<MpcField>, from: int) -> Seq<Value> {
    if 0 <= from <= factors.len() {
        field_values(factors).subrange(from, factors.len() as int)
    } else {
        Seq::empty()
    }
}

/// Multiplies the factors from position `from` on onto `first`, as far as
/// that is local.
fn multiply_run<B: BeaverSource>(
    first: MpcField,
    factors: Vec<MpcField>,
    from: usize,
    src: &mut B,
) -> (p: ProductProgress)
    ensures
        (p@, *final(src)) == multiply_on(first@, factors_from(factors@, from as int), *old(src)),
{
    let ghost goal = multiply_on(first@, factors_from(factors@, from as int), *old(src));
    let mut acc = first;
    let mut i: usize = from;
    while i < factors.len()
        invariant
            *src == *old(src),
            goal == multiply_on(first@, factors_from(factors@, from as int), *old(src)),
            multiply_on(acc@, factors_from(factors@, i as int), *src) == goal,
        decreases factors@.len() - i,
    {
        let ghost rest = factors_from(factors@, i as int);
        proof {
            assert(rest[0] == factors@[i as int]@);
            assert(rest.drop_first() =~= factors_from(factors@, i + 1));
        }
        match acc.mul(factors[i], src) {
            Step::Done(v) => {
                acc = v;
                i = i + 1;
            },
            Step::Exchange(pending) => {
                let run = ProductRun { pending, factors, next: i + 1 };
                proof {
                    assert(run@.rest == rest.drop_first());
                }
                return ProductProgress::Exchange(run);
            },
        }
    }
    proof {
        assert(factors_from(factors@, i as int).len() == 0);
    }
    ProductProgress::Done(acc)
}

impl MpcField {
    /// The sum of the values. It is local.
    pub fn sum(values: &[MpcField], am_first: bool) -> (r: MpcField)
        ensures
            r@ == sum_values(field_values(values@), am_first),
    {
        let mut acc = MpcField::zero();
        let mut i: usize = 0;
        while i < values.len()
            invariant
                i <= values@.len(),
                acc@ == sum_values(field_values(values@).take(i as int), am_first),
            decreases values@.len() - i,
        {
            proof {
                let all = field_values(values@);
                assert(all.take(i + 1).drop_last() =~= all.take(i as int));
                assert(all.take(i + 1).last() == values@[i as int]@);
            }
            acc = acc.add(values[i], am_first);
            i = i + 1;
        }
        proof {
            let all = field_values(values@);
            assert(all.take(values@.len() as int) =~= all);
        }
        acc
    }

    /// Begins the product of the factors, multiplied from the left onto
    /// the public constant 1. Every round draws exactly one triple; a
    /// product without a round leaves the source alone.
    pub fn product<B: BeaverSource>(factors: Vec<MpcField>, src: &mut B) -> (p: ProductProgress)
        ensures
            (p@, *final(src)) == multiply_on(
                Value::Public(1),
                field_values(factors@),
                *old(src),
            ),
    {
        proof {
            assert(factors_from(factors@, 0) =~= field_values(factors@));
        }
        multiply_run(MpcField::one(), factors, 0, src)
    }
}

impl ProductRun {
    /// The bytes to send to the peer in this round.
    pub fn payload(&self) -> (out: Vec<u8>)
        ensures
            out@ == payload(self@.pending),
    {
        self.pending.payload()
    }

    /// Takes the peer's payload of this round and goes on with the
    /// product, drawing the triple of the next round if there is one. On
    /// an error the source is left alone.
    pub fn resume<B: BeaverSource>(self, reply: &[u8], am_first: bool, src: &mut B) -> (r: Result<
        ProductProgress,
        MpcError,
    >)
        ensures
            match resume(self@.pending, reply@, am_first) {
                Ok(step) => r matches Ok(p) && (p@, *final(src)) == take_factor(
                    self@,
                    step,
                    *old(src),
                ),
                Err(e) => r matches Err(f) && f == e && *final(src) == *old(src),
            },
    {
        let ghost run = self@;
        let step = match self.pending.resume(reply, am_first) {
            Ok(step) => step,
            Err(e) => {
                return Err(e);
            },
        };
        match step {
            Step::Done(v) => {
                proof {
                    assert(run.rest == factors_from(self.factors@, self.next as int));
                }
                Ok(multiply_run(v, self.factors, self.next, src))
            },
            Step::Exchange(pending) => {
                let next = ProductRun { pending, factors: self.factors, next: self.next };
                proof {
                    assert(next@ == (ProductRunView { pending: pending@, rest: run.rest }));
                }
                Ok(ProductProgress::Exchange(next))
            },
        }
    }
}

} // verus!
