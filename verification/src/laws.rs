//! What holds of the two parties together.
//!
//! One party sees tags and summands. That the summands of the two parties
//! add up to the right element is a statement about both, and it is proved
//! here: for each operation, if both parties start from a representation of
//! `x` (and `y`), feed each other's payloads to their steps and use valid
//! correlated randomness, then both finish, with the same tag, on a
//! representation of the plain result.

use crate::algebra::canonical;
use crate::algebra::congruent;
use crate::algebra::f_add;
use crate::algebra::f_inv;
use crate::algebra::f_mul;
use crate::algebra::f_neg;
use crate::algebra::f_sub;
use crate::algebra::is_inverse;
use crate::algebra::lemma_add_congruent;
use crate::algebra::lemma_associative;
use crate::algebra::lemma_commutative;
use crate::algebra::lemma_congruent_equal;
use crate::algebra::lemma_congruent_ops;
use crate::algebra::lemma_distributive;
use crate::algebra::lemma_inverse_named;
use crate::algebra::lemma_mul_congruent;
use crate::algebra::lemma_neg_congruent;
use crate::algebra::lemma_neutral;
use crate::algebra::lemma_ops_congruent;
use crate::algebra::lemma_regroup;
use crate::algebra::lemma_sub_congruent;
use crate::beaver::BeaverSource;
use crate::beaver::DummyScalarTripleSource;
use crate::beaver::dummy_share;
use crate::circuit::square_chain;
use crate::dealing::deal;
use crate::dealing::dealt;
use crate::dealing::encode_seq;
use crate::dealing::lemma_decode_seq;
use crate::error::MpcError;
use crate::protocol::AfterView;
use crate::protocol::PendingView;
use crate::protocol::StepView;
use crate::protocol::ThenView;
use crate::protocol::beaver_share;
use crate::protocol::begin_mul;
use crate::protocol::finish_inverse;
use crate::protocol::lemma_decode_one;
use crate::protocol::lemma_decode_two;
use crate::protocol::payload;
use crate::protocol::resume;
use crate::protocol::rounds;
use crate::squarings::MpcProgressView;
use crate::squarings::ProgressView;
use crate::squarings::after_chain;
use crate::squarings::mpc_begin;
use crate::squarings::mpc_payload;
use crate::squarings::mpc_resume;
use crate::squarings::opening;
use crate::squarings::whole;
use crate::squarings::absorb;
use crate::squarings::advance;
use crate::wire::Value;
use crate::wire::add_value;
use crate::wire::div_step;
use crate::wire::inv_step;
use crate::wire::mul_step;
use crate::wire::neg_value;
use crate::wire::publicize_step;
use crate::wire::scale_value;
use crate::wire::sub_value;
use vstd::prelude::*;

verus! {

/// The two parties hold the element `v`: both hold it in public, or they
/// hold shares that sum to it. In particular their tags agree.
pub open spec fn represents(v0: Value, v1: Value, v: nat) -> bool {
    match (v0, v1) {
        (Value::Public(p), Value::Public(q)) => p == v && q == v && canonical(v),
        (Value::Shared(s), Value::Shared(t)) => canonical(s) && canonical(t) && f_add(s, t) == v,
        _ => false,
    }
}

/// The shares of a triple are canonical, and the product of the first two
/// components is the third.
pub open spec fn triple_valid(t0: (nat, nat, nat), t1: (nat, nat, nat)) -> bool {
    &&& canonical(t0.0) && canonical(t0.1) && canonical(t0.2)
    &&& canonical(t1.0) && canonical(t1.1) && canonical(t1.2)
    &&& f_mul(f_add(t0.0, t1.0), f_add(t0.1, t1.1)) == f_add(t0.2, t1.2)
}

/// The two parties run their steps against each other until both are
/// finished: the payload of each is the reply of the other. The result is
/// what they finish with and the number of rounds they took. There is none
/// if a party fails, if one is finished while the other waits, or if more
/// than `fuel` rounds are needed.
pub open spec fn run_both(s0: StepView, s1: StepView, fuel: nat) -> Option<(Value, Value, nat)>
    decreases fuel,
{
    match (s0, s1) {
        (StepView::Done(v0), StepView::Done(v1)) => Some((v0, v1, 0)),
        (StepView::Exchange(p0), StepView::Exchange(p1)) => if fuel == 0 {
            None
        } else {
            match (resume(p0, payload(p1), true), resume(p1, payload(p0), false)) {
                (Ok(n0), Ok(n1)) => match run_both(n0, n1, (fuel - 1) as nat) {
                    Some((v0, v1, n)) => Some((v0, v1, n + 1)),
                    None => None,
                },
                _ => None,
            }
        },
        _ => None,
    }
}

/// The shares that the two parties compute in a multiplication round sum
/// to the product.
pub proof fn lemma_beaver(
    x0: nat,
    x1: nat,
    y0: nat,
    y1: nat,
    t0: (nat, nat, nat),
    t1: (nat, nat, nat),
)
    requires
        triple_valid(t0, t1),
    ensures
        ({
            let dd = f_add(f_sub(x0, t0.0), f_sub(x1, t1.0));
            let ee = f_add(f_sub(y0, t0.1), f_sub(y1, t1.1));
            f_add(
                beaver_share(t0.0, t0.1, t0.2, dd, ee, true),
                beaver_share(t1.0, t1.1, t1.2, dd, ee, false),
            ) == f_mul(f_add(x0, x1), f_add(y0, y1))
        }),
{
    let (a0, b0, c0) = t0;
    let (a1, b1, c1) = t1;
    let dd = f_add(f_sub(x0, a0), f_sub(x1, a1));
    let ee = f_add(f_sub(y0, b0), f_sub(y1, b1));
    let z0 = beaver_share(a0, b0, c0, dd, ee, true);
    let z1 = beaver_share(a1, b1, c1, dd, ee, false);
    let (ix0, ix1, iy0, iy1) = (x0 as int, x1 as int, y0 as int, y1 as int);
    let (ia0, ib0, ic0) = (a0 as int, b0 as int, c0 as int);
    let (ia1, ib1, ic1) = (a1 as int, b1 as int, c1 as int);
    let id: int = (ix0 - ia0) + (ix1 - ia1);
    let ie: int = (iy0 - ib0) + (iy1 - ib1);
    let iz0: int = ic0 + ib0 * id + ia0 * ie + id * ie;
    let iz1: int = ic1 + ib1 * id + ia1 * ie;
    let ix: int = ix0 + ix1;
    let iy: int = iy0 + iy1;
    let ia: int = ia0 + ia1;
    let ib: int = ib0 + ib1;
    let ic: int = ic0 + ic1;
    // the opened masks
    lemma_sub_congruent(x0, a0, ix0, ia0);
    lemma_sub_congruent(x1, a1, ix1, ia1);
    lemma_add_congruent(f_sub(x0, a0), f_sub(x1, a1), ix0 - ia0, ix1 - ia1);
    lemma_sub_congruent(y0, b0, iy0, ib0);
    lemma_sub_congruent(y1, b1, iy1, ib1);
    lemma_add_congruent(f_sub(y0, b0), f_sub(y1, b1), iy0 - ib0, iy1 - ib1);
    // the first party
    lemma_mul_congruent(b0, dd, ib0, id);
    lemma_mul_congruent(a0, ee, ia0, ie);
    lemma_mul_congruent(dd, ee, id, ie);
    lemma_add_congruent(c0, f_mul(b0, dd), ic0, ib0 * id);
    lemma_add_congruent(f_add(c0, f_mul(b0, dd)), f_mul(a0, ee), ic0 + ib0 * id, ia0 * ie);
    lemma_add_congruent(
        f_add(f_add(c0, f_mul(b0, dd)), f_mul(a0, ee)),
        f_mul(dd, ee),
        ic0 + ib0 * id + ia0 * ie,
        id * ie,
    );
    assert(congruent(z0 as int, iz0));
    // the other party
    lemma_mul_congruent(b1, dd, ib1, id);
    lemma_mul_congruent(a1, ee, ia1, ie);
    lemma_add_congruent(c1, f_mul(b1, dd), ic1, ib1 * id);
    lemma_add_congruent(f_add(c1, f_mul(b1, dd)), f_mul(a1, ee), ic1 + ib1 * id, ia1 * ie);
    assert(congruent(z1 as int, iz1));
    lemma_add_congruent(z0, z1, iz0, iz1);
    // the plain product
    lemma_add_congruent(x0, x1, ix0, ix1);
    lemma_add_congruent(y0, y1, iy0, iy1);
    lemma_mul_congruent(f_add(x0, x1), f_add(y0, y1), ix, iy);
    // the triple
    lemma_add_congruent(a0, a1, ia0, ia1);
    lemma_add_congruent(b0, b1, ib0, ib1);
    lemma_add_congruent(c0, c1, ic0, ic1);
    lemma_mul_congruent(f_add(a0, a1), f_add(b0, b1), ia, ib);
    assert(congruent(ic, ia * ib));
    assert(iz0 + iz1 == ix * iy + (ic - ia * ib)) by (nonlinear_arith)
        requires
            iz0 == ic0 + ib0 * id + ia0 * ie + id * ie,
            iz1 == ic1 + ib1 * id + ia1 * ie,
            id == (ix0 - ia0) + (ix1 - ia1),
            ie == (iy0 - ib0) + (iy1 - ib1),
            ix == ix0 + ix1,
            iy == iy0 + iy1,
            ia == ia0 + ia1,
            ib == ib0 + ib1,
            ic == ic0 + ic1,
    ;
    lemma_congruent_ops(ic, ia * ib, ia * ib, ia * ib);
    lemma_congruent_ops(ix * iy, ix * iy, ic - ia * ib, 0);
    lemma_congruent_equal(f_add(z0, z1), f_mul(f_add(x0, x1), f_add(y0, y1)), ix * iy);
}

/// The integer that the two parties' numbers stand for: the public value,
/// or the sum of the shares.
pub open spec fn joint(v0: Value, v1: Value) -> int {
    match v0 {
        Value::Public(p) => p as int,
        Value::Shared(s) => (s + v1.held()) as int,
    }
}

/// The share that a party computes in a multiplication round is canonical.
pub proof fn lemma_beaver_canonical(
    x: nat,
    y: nat,
    t: (nat, nat, nat),
    peer_d: nat,
    peer_e: nat,
    am_first: bool,
)
    ensures
        canonical(
            beaver_share(
                t.0,
                t.1,
                t.2,
                f_add(f_sub(x, t.0), peer_d),
                f_add(f_sub(y, t.1), peer_e),
                am_first,
            ),
        ),
{
    let dd = f_add(f_sub(x, t.0), peer_d);
    let ee = f_add(f_sub(y, t.1), peer_e);
    lemma_ops_congruent(f_add(t.2, f_mul(t.1, dd)), f_mul(t.0, ee));
    lemma_ops_congruent(f_add(f_add(t.2, f_mul(t.1, dd)), f_mul(t.0, ee)), f_mul(dd, ee));
}

/// A representation stands for an integer congruent to its element.
pub proof fn lemma_represents_joint(v0: Value, v1: Value, v: nat)
    requires
        represents(v0, v1, v),
    ensures
        congruent(v as int, joint(v0, v1)),
        canonical(v),
        canonical(v0.held()),
        canonical(v1.held()),
{
    lemma_ops_congruent(v0.held(), v1.held());
}

/// Two shares whose sum is congruent to an integer represent the element
/// that is congruent to it.
pub proof fn lemma_shares_represent(s: nat, t: nat, v: nat, i: int)
    requires
        canonical(s),
        canonical(t),
        canonical(v),
        congruent((s + t) as int, i),
        congruent(v as int, i),
    ensures
        represents(Value::Shared(s), Value::Shared(t), v),
{
    lemma_ops_congruent(s, t);
    lemma_congruent_equal(f_add(s, t), v, i);
}

/// Addition is correct: the parties' sums represent the sum, and no round
/// is taken.
pub proof fn law_add(x0: Value, x1: Value, x: nat, y0: Value, y1: Value, y: nat)
    requires
        represents(x0, x1, x),
        represents(y0, y1, y),
    ensures
        represents(add_value(x0, y0, true), add_value(x1, y1, false), f_add(x, y)),
{
    lemma_represents_joint(x0, x1, x);
    lemma_represents_joint(y0, y1, y);
    lemma_add_congruent(x, y, joint(x0, x1), joint(y0, y1));
    let i = joint(x0, x1) + joint(y0, y1);
    match (x0, y0) {
        (Value::Public(p), Value::Public(q)) => {},
        (Value::Public(p), Value::Shared(s)) => {
            let t = y1.held();
            lemma_ops_congruent(s, p);
            lemma_congruent_ops(f_add(s, p) as int, (s + p) as int, t as int, t as int);
            lemma_shares_represent(f_add(s, p), t, f_add(x, y), i);
        },
        (Value::Shared(s), Value::Public(p)) => {
            let t = x1.held();
            lemma_ops_congruent(s, p);
            lemma_congruent_ops(f_add(s, p) as int, (s + p) as int, t as int, t as int);
            lemma_shares_represent(f_add(s, p), t, f_add(x, y), i);
        },
        (Value::Shared(s), Value::Shared(t)) => {
            let s1 = x1.held();
            let t1 = y1.held();
            lemma_ops_congruent(s, t);
            lemma_ops_congruent(s1, t1);
            lemma_congruent_ops(
                f_add(s, t) as int,
                (s + t) as int,
                f_add(s1, t1) as int,
                (s1 + t1) as int,
            );
            lemma_shares_represent(f_add(s, t), f_add(s1, t1), f_add(x, y), i);
        },
    }
}

/// Subtraction is correct: the parties' differences represent the
/// difference, and no round is taken.
pub proof fn law_sub(x0: Value, x1: Value, x: nat, y0: Value, y1: Value, y: nat)
    requires
        represents(x0, x1, x),
        represents(y0, y1, y),
    ensures
        represents(sub_value(x0, y0, true), sub_value(x1, y1, false), f_sub(x, y)),
{
    lemma_represents_joint(x0, x1, x);
    lemma_represents_joint(y0, y1, y);
    lemma_sub_congruent(x, y, joint(x0, x1), joint(y0, y1));
    let i = joint(x0, x1) - joint(y0, y1);
    match (x0, y0) {
        (Value::Public(p), Value::Public(q)) => {},
        (Value::Public(p), Value::Shared(s)) => {
            let t = y1.held();
            lemma_neg_congruent(s, s as int);
            lemma_neg_congruent(t, t as int);
            lemma_add_congruent(f_neg(s), p, -(s as int), p as int);
            lemma_congruent_ops(
                f_add(f_neg(s), p) as int,
                -(s as int) + p,
                f_neg(t) as int,
                -(t as int),
            );
            lemma_shares_represent(f_add(f_neg(s), p), f_neg(t), f_sub(x, y), i);
        },
        (Value::Shared(s), Value::Public(p)) => {
            lemma_neg_congruent(p, p as int);
            lemma_add_congruent(s, f_neg(p), s as int, -(p as int));
            let t = x1.held();
            lemma_congruent_ops(f_add(s, f_neg(p)) as int, s - p, t as int, t as int);
            lemma_shares_represent(f_add(s, f_neg(p)), t, f_sub(x, y), i);
        },
        (Value::Shared(s), Value::Shared(t)) => {
            let s1 = x1.held();
            let t1 = y1.held();
            lemma_ops_congruent(s, t);
            lemma_ops_congruent(s1, t1);
            lemma_congruent_ops(f_sub(s, t) as int, s - t, f_sub(s1, t1) as int, s1 - t1);
            lemma_shares_represent(f_sub(s, t), f_sub(s1, t1), f_sub(x, y), i);
        },
    }
}

/// Negation is correct, and no round is taken.
pub proof fn law_neg(x0: Value, x1: Value, x: nat)
    requires
        represents(x0, x1, x),
    ensures
        represents(neg_value(x0), neg_value(x1), f_neg(x)),
{
    lemma_represents_joint(x0, x1, x);
    lemma_neg_congruent(x, joint(x0, x1));
    match x0 {
        Value::Public(p) => {},
        Value::Shared(s) => {
            let t = x1.held();
            lemma_neg_congruent(s, s as int);
            lemma_neg_congruent(t, t as int);
            lemma_congruent_ops(f_neg(s) as int, -(s as int), f_neg(t) as int, -(t as int));
            lemma_shares_represent(f_neg(s), f_neg(t), f_neg(x), -joint(x0, x1));
        },
    }
}

/// Scaling by a public element is correct, and no round is taken.
pub proof fn law_scale(x0: Value, x1: Value, x: nat, k: nat)
    requires
        represents(x0, x1, x),
    ensures
        represents(scale_value(x0, k), scale_value(x1, k), f_mul(x, k)),
{
    lemma_represents_joint(x0, x1, x);
    lemma_mul_congruent(x, k, joint(x0, x1), k as int);
    match x0 {
        Value::Public(p) => {},
        Value::Shared(s) => {
            let t = x1.held();
            lemma_ops_congruent(s, k);
            lemma_ops_congruent(t, k);
            lemma_congruent_ops(
                f_mul(s, k) as int,
                (s * k) as int,
                f_mul(t, k) as int,
                (t * k) as int,
            );
            assert(s * k + t * k == (s + t) * k) by (nonlinear_arith);
            lemma_shares_represent(f_mul(s, k), f_mul(t, k), f_mul(x, k), joint(x0, x1) * k);
        },
    }
}

/// Multiplication is correct. With a public factor no round is taken; two
/// shared factors take exactly one.
pub proof fn law_mul(
    x0: Value,
    x1: Value,
    x: nat,
    y0: Value,
    y1: Value,
    y: nat,
    t0: (nat, nat, nat),
    t1: (nat, nat, nat),
)
    requires
        represents(x0, x1, x),
        represents(y0, y1, y),
        triple_valid(t0, t1),
    ensures
        match run_both(mul_step(x0, y0, t0), mul_step(x1, y1, t1), 1) {
            Some((z0, z1, n)) => represents(z0, z1, f_mul(x, y)) && n == (if x0 is Shared
                && y0 is Shared {
                1nat
            } else {
                0nat
            }),
            None => false,
        },
{
    reveal_with_fuel(run_both, 3);
    match (x0, y0) {
        (Value::Shared(s0), Value::Shared(u0)) => {
            let s1 = x1.held();
            let u1 = y1.held();
            lemma_ops_congruent(s0, t0.0);
            lemma_ops_congruent(u0, t0.1);
            lemma_ops_congruent(s1, t1.0);
            lemma_ops_congruent(u1, t1.1);
            lemma_decode_two(f_sub(s0, t0.0), f_sub(u0, t0.1));
            lemma_decode_two(f_sub(s1, t1.0), f_sub(u1, t1.1));
            lemma_commutative(f_sub(s0, t0.0), f_sub(s1, t1.0));
            lemma_commutative(f_sub(u0, t0.1), f_sub(u1, t1.1));
            lemma_beaver(s0, s1, u0, u1, t0, t1);
            lemma_beaver_canonical(s0, u0, t0, f_sub(s1, t1.0), f_sub(u1, t1.1), true);
            lemma_beaver_canonical(s1, u1, t1, f_sub(s0, t0.0), f_sub(u0, t0.1), false);
        },
        (Value::Public(p), _) => {
            law_scale(y0, y1, y, p);
            lemma_commutative(y, p);
        },
        (_, Value::Public(q)) => {
            law_scale(x0, x1, x, q);
        },
    }
}

/// Making a value public is correct: both parties finish with the element
/// itself in public. A share takes one round to open; the check takes one
/// more and passes.
pub proof fn law_publicize(x0: Value, x1: Value, x: nat, check: bool)
    requires
        represents(x0, x1, x),
    ensures
        run_both(publicize_step(x0, check), publicize_step(x1, check), 2) == Some(
            (
                Value::Public(x),
                Value::Public(x),
                (if x0 is Shared {
                    1nat
                } else {
                    0nat
                }) + (if check {
                    1nat
                } else {
                    0nat
                }),
            ),
        ),
{
    reveal_with_fuel(run_both, 4);
    lemma_represents_joint(x0, x1, x);
    lemma_decode_one(x);
    match x0 {
        Value::Public(p) => {},
        Value::Shared(s) => {
            lemma_decode_one(s);
            lemma_decode_one(x1.held());
            lemma_commutative(s, x1.held());
        },
    }
}

/// Two parties whose public values differ are told so by the check: both
/// runs end as desynchronized.
pub proof fn law_check_detects(v0: nat, v1: nat)
    requires
        canonical(v0),
        canonical(v1),
        v0 != v1,
    ensures
        resume(PendingView::Check { value: v0 }, payload(PendingView::Check { value: v1 }), true)
            == Err::<StepView, MpcError>(MpcError::Desynchronized),
        resume(PendingView::Check { value: v1 }, payload(PendingView::Check { value: v0 }), false)
            == Err::<StepView, MpcError>(MpcError::Desynchronized),
{
    lemma_decode_one(v0);
    lemma_decode_one(v1);
}

/// The shares of an inversion pair are canonical, and the product of its
/// two components is 1.
pub open spec fn pair_valid(p0: (nat, nat), p1: (nat, nat)) -> bool {
    &&& canonical(p0.0) && canonical(p0.1)
    &&& canonical(p1.0) && canonical(p1.1)
    &&& f_mul(f_add(p0.0, p1.0), f_add(p0.1, p1.1)) == 1
}

/// The shares that the two parties hold after unmasking sum to the
/// inverse: the mask `r` over the opened product `x * r`.
pub proof fn lemma_unmask(x: nat, xi: nat, r0: nat, r1: nat, q: nat, m: nat)
    requires
        is_inverse(x, xi),
        canonical(r0),
        canonical(r1),
        canonical(q),
        f_mul(f_add(r0, r1), q) == 1,
        m == f_mul(x, f_add(r0, r1)),
    ensures
        m != 0,
        f_inv(m) == f_mul(q, xi),
        represents(
            Value::Shared(f_mul(r0, f_inv(m))),
            Value::Shared(f_mul(r1, f_inv(m))),
            xi,
        ),
{
    let r = f_add(r0, r1);
    let mi = f_mul(q, xi);
    lemma_ops_congruent(q, xi);
    lemma_regroup(x, r, q, xi);
    lemma_neutral(1);
    assert(is_inverse(m, mi));
    lemma_inverse_named(m, mi);
    lemma_distributive(r0, r1, mi);
    lemma_associative(r, q, xi);
    lemma_neutral(xi);
    lemma_ops_congruent(r0, mi);
    lemma_ops_congruent(r1, mi);
}

/// Inversion is correct for every element that has an inverse, with any
/// valid inversion pair and triple. A public value takes no round and a
/// shared one two.
pub proof fn law_inv(
    x0: Value,
    x1: Value,
    x: nat,
    xi: nat,
    p0: (nat, nat),
    p1: (nat, nat),
    t0: (nat, nat, nat),
    t1: (nat, nat, nat),
)
    requires
        represents(x0, x1, x),
        is_inverse(x, xi),
        pair_valid(p0, p1),
        triple_valid(t0, t1),
    ensures
        match (inv_step(x0, p0, t0), inv_step(x1, p1, t1)) {
            (Some(s0), Some(s1)) => match run_both(s0, s1, 2) {
                Some((z0, z1, n)) => represents(z0, z1, xi) && n == (if x0 is Shared {
                    2nat
                } else {
                    0nat
                }),
                None => false,
            },
            _ => false,
        },
{
    reveal_with_fuel(run_both, 4);
    lemma_inverse_named(x, xi);
    match x0 {
        Value::Public(p) => {},
        Value::Shared(s0) => {
            let s1 = x1.held();
            let after = AfterView::Finish;
            lemma_inverting_rounds(s0, s1, xi, p0, p1, t0, t1, after, after);
        },
    }
}

/// The two rounds of an inversion: after them both parties are where
/// `finish_inverse` leaves them, with shares of the inverse.
pub proof fn lemma_inverting_rounds(
    s0: nat,
    s1: nat,
    xi: nat,
    p0: (nat, nat),
    p1: (nat, nat),
    t0: (nat, nat, nat),
    t1: (nat, nat, nat),
    after0: AfterView,
    after1: AfterView,
)
    requires
        canonical(s0),
        canonical(s1),
        is_inverse(f_add(s0, s1), xi),
        pair_valid(p0, p1),
        triple_valid(t0, t1),
    ensures
        ({
            let b0 = begin_mul(s0, p0.0, t0, ThenView::Unmask { mask: p0.0, after: after0 });
            let b1 = begin_mul(s1, p1.0, t1, ThenView::Unmask { mask: p1.0, after: after1 });
            match (resume(b0, payload(b1), true), resume(b1, payload(b0), false)) {
                (Ok(StepView::Exchange(u0)), Ok(StepView::Exchange(u1))) => match (
                    resume(u0, payload(u1), true),
                    resume(u1, payload(u0), false),
                ) {
                    (Ok(f0), Ok(f1)) => exists|w0: nat, w1: nat|
                        {
                            &&& f0 == finish_inverse(w0, after0)
                            &&& f1 == finish_inverse(w1, after1)
                            &&& represents(Value::Shared(w0), Value::Shared(w1), xi)
                        },
                    _ => false,
                },
                _ => false,
            }
        }),
{
    let (r0, q0) = p0;
    let (r1, q1) = p1;
    let d0 = f_sub(s0, t0.0);
    let e0 = f_sub(r0, t0.1);
    let d1 = f_sub(s1, t1.0);
    let e1 = f_sub(r1, t1.1);
    lemma_ops_congruent(s0, t0.0);
    lemma_ops_congruent(r0, t0.1);
    lemma_ops_congruent(s1, t1.0);
    lemma_ops_congruent(r1, t1.1);
    lemma_decode_two(d0, e0);
    lemma_decode_two(d1, e1);
    lemma_commutative(d0, d1);
    lemma_commutative(e0, e1);
    lemma_beaver(s0, s1, r0, r1, t0, t1);
    lemma_beaver_canonical(s0, r0, t0, d1, e1, true);
    lemma_beaver_canonical(s1, r1, t1, d0, e0, false);
    let m0 = beaver_share(t0.0, t0.1, t0.2, f_add(d0, d1), f_add(e0, e1), true);
    let m1 = beaver_share(t1.0, t1.1, t1.2, f_add(d0, d1), f_add(e0, e1), false);
    let m = f_add(m0, m1);
    lemma_decode_one(m0);
    lemma_decode_one(m1);
    lemma_commutative(m0, m1);
    lemma_ops_congruent(q0, q1);
    lemma_unmask(f_add(s0, s1), xi, r0, r1, f_add(q0, q1), m);
    let w0 = f_mul(r0, f_inv(m));
    let w1 = f_mul(r1, f_inv(m));
    let b0 = begin_mul(s0, p0.0, t0, ThenView::Unmask { mask: p0.0, after: after0 });
    let b1 = begin_mul(s1, p1.0, t1, ThenView::Unmask { mask: p1.0, after: after1 });
    let u0 = PendingView::Unmask { m: m0, mask: r0, after: after0 };
    let u1 = PendingView::Unmask { m: m1, mask: r1, after: after1 };
    assert(resume(b0, payload(b1), true) == Ok::<StepView, MpcError>(StepView::Exchange(u0)));
    assert(resume(b1, payload(b0), false) == Ok::<StepView, MpcError>(StepView::Exchange(u1)));
    assert(resume(u0, payload(u1), true) == Ok::<StepView, MpcError>(finish_inverse(w0, after0)));
    assert(resume(u1, payload(u0), false) == Ok::<StepView, MpcError>(finish_inverse(w1, after1)));
}

/// Division is correct for every divisor that has an inverse, with any
/// valid inversion pair and triples. A public divisor takes no round; a
/// shared divisor takes two under a public dividend and three under a
/// shared one.
pub proof fn law_div(
    x0: Value,
    x1: Value,
    x: nat,
    y0: Value,
    y1: Value,
    y: nat,
    yi: nat,
    p0: (nat, nat),
    p1: (nat, nat),
    t0: (nat, nat, nat),
    t1: (nat, nat, nat),
    u0: (nat, nat, nat),
    u1: (nat, nat, nat),
)
    requires
        represents(x0, x1, x),
        represents(y0, y1, y),
        is_inverse(y, yi),
        pair_valid(p0, p1),
        triple_valid(t0, t1),
        triple_valid(u0, u1),
    ensures
        match run_both(div_step(x0, y0, p0, t0, u0), div_step(x1, y1, p1, t1, u1), 3) {
            Some((z0, z1, n)) => represents(z0, z1, f_mul(x, yi)) && n == (if y0 is Public {
                0nat
            } else if x0 is Public {
                2nat
            } else {
                3nat
            }),
            None => false,
        },
{
    reveal_with_fuel(run_both, 5);
    lemma_inverse_named(y, yi);
    match (x0, y0) {
        (_, Value::Public(q)) => {
            law_scale(x0, x1, x, yi);
        },
        (Value::Public(p), Value::Shared(s0)) => {
            let s1 = y1.held();
            let a0 = AfterView::Scale(p);
            lemma_inverting_rounds(s0, s1, yi, p0, p1, t0, t1, a0, a0);
            let b0 = begin_mul(s0, p0.0, t0, ThenView::Unmask { mask: p0.0, after: a0 });
            let b1 = begin_mul(s1, p1.0, t1, ThenView::Unmask { mask: p1.0, after: a0 });
            let n0 = resume(b0, payload(b1), true)->Ok_0;
            let n1 = resume(b1, payload(b0), false)->Ok_0;
            let f0 = resume(n0->Exchange_0, payload(n1->Exchange_0), true)->Ok_0;
            let f1 = resume(n1->Exchange_0, payload(n0->Exchange_0), false)->Ok_0;
            let (w0, w1) = choose|w0: nat, w1: nat|
                {
                    &&& f0 == finish_inverse(w0, a0)
                    &&& f1 == finish_inverse(w1, a0)
                    &&& represents(Value::Shared(w0), Value::Shared(w1), yi)
                };
            law_scale(Value::Shared(w0), Value::Shared(w1), yi, p);
            lemma_commutative(yi, p);
        },
        (Value::Shared(v0), Value::Shared(s0)) => {
            let v1 = x1.held();
            let s1 = y1.held();
            let a0 = AfterView::Mul { x: v0, a: u0.0, b: u0.1, c: u0.2 };
            let a1 = AfterView::Mul { x: v1, a: u1.0, b: u1.1, c: u1.2 };
            lemma_inverting_rounds(s0, s1, yi, p0, p1, t0, t1, a0, a1);
            let b0 = begin_mul(s0, p0.0, t0, ThenView::Unmask { mask: p0.0, after: a0 });
            let b1 = begin_mul(s1, p1.0, t1, ThenView::Unmask { mask: p1.0, after: a1 });
            let n0 = resume(b0, payload(b1), true)->Ok_0;
            let n1 = resume(b1, payload(b0), false)->Ok_0;
            let f0 = resume(n0->Exchange_0, payload(n1->Exchange_0), true)->Ok_0;
            let f1 = resume(n1->Exchange_0, payload(n0->Exchange_0), false)->Ok_0;
            let (w0, w1) = choose|w0: nat, w1: nat|
                {
                    &&& f0 == finish_inverse(w0, a0)
                    &&& f1 == finish_inverse(w1, a1)
                    &&& represents(Value::Shared(w0), Value::Shared(w1), yi)
                };
            law_mul(x0, x1, x, Value::Shared(w0), Value::Shared(w1), yi, u0, u1);
            assert(f0 == mul_step(x0, Value::Shared(w0), u0));
            assert(f1 == mul_step(x1, Value::Shared(w1), u1));
        },
    }
}

/// Making a public value public changes nothing, and without the check it
/// takes no round.
pub proof fn law_publicize_idempotent(p: nat)
    ensures
        publicize_step(Value::Public(p), false) == StepView::Done(Value::Public(p)),
        canonical(p) ==> run_both(
            publicize_step(Value::Public(p), true),
            publicize_step(Value::Public(p), true),
            1,
        ) == Some((Value::Public(p), Value::Public(p), 1nat)),
{
    reveal_with_fuel(run_both, 3);
    if canonical(p) {
        lemma_decode_one(p);
    }
}

/// The public constant 0 is neutral for addition and the public constant 1
/// for multiplication, whatever the tag of the other operand and on either
/// party; neither takes a round.
pub proof fn law_public_constants_neutral(x: Value, am_first: bool, t: (nat, nat, nat))
    requires
        canonical(x.held()),
    ensures
        add_value(Value::Public(0), x, am_first) == x,
        add_value(x, Value::Public(0), am_first) == x,
        mul_step(Value::Public(1), x, t) == StepView::Done(x),
        mul_step(x, Value::Public(1), t) == StepView::Done(x),
{
    lemma_neutral(x.held());
}

/// Doubling is adding a value to itself, on either party; both are local.
pub proof fn law_double_is_add_self(x: Value, am_first: bool)
    requires
        canonical(x.held()),
    ensures
        scale_value(x, 2) == add_value(x, x, am_first),
{
    lemma_neutral(x.held());
}

/// A public constant is revealed as itself; without the check no round is
/// taken.
pub proof fn law_public_roundtrip(v: nat)
    requires
        canonical(v),
    ensures
        run_both(
            publicize_step(Value::Public(v), false),
            publicize_step(Value::Public(v), false),
            0,
        ) == Some((Value::Public(v), Value::Public(v), 0nat)),
{
    law_publicize(Value::Public(v), Value::Public(v), v, false);
    reveal_with_fuel(run_both, 2);
}

/// Two summands are revealed as their sum, in one round.
pub proof fn law_shared_roundtrip(s0: nat, s1: nat)
    requires
        canonical(s0),
        canonical(s1),
    ensures
        run_both(
            publicize_step(Value::Shared(s0), false),
            publicize_step(Value::Shared(s1), false),
            1,
        ) == Some((Value::Public(f_add(s0, s1)), Value::Public(f_add(s0, s1)), 1nat)),
{
    law_publicize(Value::Shared(s0), Value::Shared(s1), f_add(s0, s1), false);
    reveal_with_fuel(run_both, 4);
}

/// What the dummy source hands to the two parties is valid correlated
/// randomness: a triple and a pair.
pub proof fn law_dummy_source_valid()
    ensures
        triple_valid(
            (dummy_share(true), dummy_share(true), dummy_share(true)),
            (dummy_share(false), dummy_share(false), dummy_share(false)),
        ),
        pair_valid(
            (dummy_share(true), dummy_share(true)),
            (dummy_share(false), dummy_share(false)),
        ),
{
    lemma_neutral(1);
}

/// Every round that succeeds brings a party one round closer to the end:
/// the count of a pending state is exact.
pub proof fn law_rounds_count_down(p: PendingView, reply: Seq<u8>, am_first: bool)
    ensures
        match resume(p, reply, am_first) {
            Ok(StepView::Done(_)) => rounds(p) == 1,
            Ok(StepView::Exchange(next)) => rounds(p) == rounds(next) + 1,
            Err(_) => true,
        },
{
}

/// One operation on the running value of a computation: what it does, the
/// other operand as the two parties hold it, and the correlated randomness
/// that each party draws for it.
pub enum Op {
    Add { y0: Value, y1: Value, y: nat },
    Sub { y0: Value, y1: Value, y: nat },
    Mul { y0: Value, y1: Value, y: nat, t0: (nat, nat, nat), t1: (nat, nat, nat) },
    Div {
        y0: Value,
        y1: Value,
        y: nat,
        p0: (nat, nat),
        p1: (nat, nat),
        t0: (nat, nat, nat),
        t1: (nat, nat, nat),
        u0: (nat, nat, nat),
        u1: (nat, nat, nat),
    },
    Neg,
    Double,
    Square { t0: (nat, nat, nat), t1: (nat, nat, nat) },
    Inv { p0: (nat, nat), p1: (nat, nat), t0: (nat, nat, nat), t1: (nat, nat, nat) },
}

/// The operand of an operation is held by both parties, and its randomness
/// is valid.
pub open spec fn op_valid(op: Op) -> bool {
    match op {
        Op::Add { y0, y1, y } => represents(y0, y1, y),
        Op::Sub { y0, y1, y } => represents(y0, y1, y),
        Op::Mul { y0, y1, y, t0, t1 } => represents(y0, y1, y) && triple_valid(t0, t1),
        Op::Div { y0, y1, y, p0, p1, t0, t1, u0, u1 } => {
            &&& represents(y0, y1, y)
            &&& pair_valid(p0, p1)
            &&& triple_valid(t0, t1)
            &&& triple_valid(u0, u1)
        },
        Op::Neg => true,
        Op::Double => true,
        Op::Square { t0, t1 } => triple_valid(t0, t1),
        Op::Inv { p0, p1, t0, t1 } => {
            &&& pair_valid(p0, p1)
            &&& triple_valid(t0, t1)
        },
    }
}

/// Whether an element has an inverse.
pub open spec fn invertible(a: nat) -> bool {
    is_inverse(a, f_inv(a))
}

/// The operation in the plain field. Division by, and inversion of, an
/// element without inverse has no result.
pub open spec fn apply_plain(v: nat, op: Op) -> Option<nat> {
    match op {
        Op::Add { y, .. } => Some(f_add(v, y)),
        Op::Sub { y, .. } => Some(f_sub(v, y)),
        Op::Mul { y, .. } => Some(f_mul(v, y)),
        Op::Div { y, .. } => if invertible(y) {
            Some(f_mul(v, f_inv(y)))
        } else {
            None
        },
        Op::Neg => Some(f_neg(v)),
        Op::Double => Some(f_mul(v, 2)),
        Op::Square { .. } => Some(f_mul(v, v)),
        Op::Inv { .. } => if invertible(v) {
            Some(f_inv(v))
        } else {
            None
        },
    }
}

/// The values of a joint run, without its number of rounds.
pub open spec fn finished(r: Option<(Value, Value, nat)>) -> Option<(Value, Value)> {
    match r {
        Some((z0, z1, _)) => Some((z0, z1)),
        None => None,
    }
}

/// The operation as the two parties carry it out together.
pub open spec fn apply_both(v0: Value, v1: Value, op: Op) -> Option<(Value, Value)> {
    match op {
        Op::Add { y0, y1, .. } => Some((add_value(v0, y0, true), add_value(v1, y1, false))),
        Op::Sub { y0, y1, .. } => Some((sub_value(v0, y0, true), sub_value(v1, y1, false))),
        Op::Mul { y0, y1, t0, t1, .. } => finished(
            run_both(mul_step(v0, y0, t0), mul_step(v1, y1, t1), 1),
        ),
        Op::Div { y0, y1, p0, p1, t0, t1, u0, u1, .. } => if y0 == Value::Public(0) || y1
            == Value::Public(0) {
            None
        } else {
            finished(run_both(div_step(v0, y0, p0, t0, u0), div_step(v1, y1, p1, t1, u1), 3))
        },
        Op::Neg => Some((neg_value(v0), neg_value(v1))),
        Op::Double => Some((scale_value(v0, 2), scale_value(v1, 2))),
        Op::Square { t0, t1 } => finished(run_both(mul_step(v0, v0, t0), mul_step(v1, v1, t1), 1)),
        Op::Inv { p0, p1, t0, t1 } => match (inv_step(v0, p0, t0), inv_step(v1, p1, t1)) {
            (Some(s0), Some(s1)) => finished(run_both(s0, s1, 2)),
            _ => None,
        },
    }
}

/// A sequence of operations in the plain field.
pub open spec fn run_plain(v: nat, ops: Seq<Op>) -> Option<nat>
    decreases ops.len(),
{
    if ops.len() == 0 {
        Some(v)
    } else {
        match apply_plain(v, ops[0]) {
            Some(w) => run_plain(w, ops.drop_first()),
            None => None,
        }
    }
}

/// A sequence of operations as the two parties carry it out together.
pub open spec fn run_joint(v0: Value, v1: Value, ops: Seq<Op>) -> Option<(Value, Value)>
    decreases ops.len(),
{
    if ops.len() == 0 {
        Some((v0, v1))
    } else {
        match apply_both(v0, v1, ops[0]) {
            Some((w0, w1)) => run_joint(w0, w1, ops.drop_first()),
            None => None,
        }
    }
}

/// One operation is correct: where the plain operation has a result, the
/// two parties finish on a representation of it, with tags that agree.
pub proof fn law_operation(v0: Value, v1: Value, v: nat, op: Op, r: nat)
    requires
        represents(v0, v1, v),
        op_valid(op),
        apply_plain(v, op) == Some(r),
    ensures
        match apply_both(v0, v1, op) {
            Some((z0, z1)) => represents(z0, z1, r),
            None => false,
        },
{
    match op {
        Op::Add { y0, y1, y } => {
            law_add(v0, v1, v, y0, y1, y);
        },
        Op::Sub { y0, y1, y } => {
            law_sub(v0, v1, v, y0, y1, y);
        },
        Op::Mul { y0, y1, y, t0, t1 } => {
            law_mul(v0, v1, v, y0, y1, y, t0, t1);
        },
        Op::Div { y0, y1, y, p0, p1, t0, t1, u0, u1 } => {
            lemma_inverse_named(y, f_inv(y));
            law_div(v0, v1, v, y0, y1, y, f_inv(y), p0, p1, t0, t1, u0, u1);
        },
        Op::Neg => {
            law_neg(v0, v1, v);
        },
        Op::Double => {
            law_scale(v0, v1, v, 2);
        },
        Op::Square { t0, t1 } => {
            law_mul(v0, v1, v, v0, v1, v, t0, t1);
        },
        Op::Inv { p0, p1, t0, t1 } => {
            law_inv(v0, v1, v, f_inv(v), p0, p1, t0, t1);
        },
    }
}

/// Reveal correctness. Lift an element as a public constant or as two
/// summands, carry out any finite sequence of operations with valid
/// operands and randomness, and reveal: both parties get what the same
/// operations give in the plain field. After every operation the parties'
/// tags agree.
pub proof fn law_reveal_correct(v0: Value, v1: Value, v: nat, ops: Seq<Op>, r: nat, check: bool)
    requires
        represents(v0, v1, v),
        forall|i: int| 0 <= i < ops.len() ==> op_valid(#[trigger] ops[i]),
        run_plain(v, ops) == Some(r),
    ensures
        match run_joint(v0, v1, ops) {
            Some((z0, z1)) => {
                &&& represents(z0, z1, r)
                &&& finished(run_both(publicize_step(z0, check), publicize_step(z1, check), 2))
                    == Some((Value::Public(r), Value::Public(r)))
            },
            None => false,
        },
    decreases ops.len(),
{
    if ops.len() == 0 {
        law_publicize(v0, v1, v, check);
    } else {
        let w = apply_plain(v, ops[0])->Some_0;
        law_operation(v0, v1, v, ops[0], w);
        let (w0, w1) = apply_both(v0, v1, ops[0])->Some_0;
        let rest = ops.drop_first();
        assert forall|i: int| 0 <= i < rest.len() implies op_valid(#[trigger] rest[i]) by {
            assert(rest[i] == ops[i + 1]);
        }
        law_reveal_correct(w0, w1, w, rest, r, check);
    }
}

/// Every value of a chain that starts from a canonical value is
/// canonical.
pub proof fn lemma_square_chain_canonical(start: nat, i: nat)
    requires
        canonical(start),
    ensures
        canonical(square_chain(start, i)),
    decreases i,
{
    if i > 0 {
        let p = square_chain(start, (i - 1) as nat);
        lemma_ops_congruent(p, p);
    }
}

/// A masked value and the negated mask sum to the value.
pub proof fn lemma_mask_cancels(v: nat, r: nat)
    requires
        canonical(v),
    ensures
        f_add(f_add(v, r), f_neg(r)) == v,
        canonical(f_add(v, r)),
        canonical(f_neg(r)),
{
    lemma_add_congruent(v, r, v as int, r as int);
    lemma_neg_congruent(r, r as int);
    lemma_add_congruent(f_add(v, r), f_neg(r), (v + r) as int, -(r as int));
    lemma_congruent_equal(f_add(f_add(v, r), f_neg(r)), v, v as int);
}

/// Dealing is correct: after the one exchange of a deal, the shares of the
/// two parties sum, value by value, to the chain that was dealt.
pub proof fn law_deal(start: nat, masks: Seq<nat>)
    requires
        canonical(start),
        forall|i: int| 0 <= i < masks.len() ==> canonical(#[trigger] masks[i]),
    ensures
        ({
            let d0 = deal(start, masks, true);
            let d1 = deal(start, masks, false);
            match (dealt(d0, encode_seq(d1.outgoing)), dealt(d1, encode_seq(d0.outgoing))) {
                (Ok(a), Ok(b)) => {
                    &&& a.len() == masks.len()
                    &&& b.len() == masks.len()
                    &&& forall|i: int|
                        0 <= i < masks.len() ==> represents(
                            Value::Shared(#[trigger] a[i]),
                            Value::Shared(b[i]),
                            square_chain(start, i as nat),
                        )
                },
                _ => false,
            }
        }),
{
    let d0 = deal(start, masks, true);
    let d1 = deal(start, masks, false);
    assert forall|i: int| 0 <= i < masks.len() implies canonical(#[trigger] d0.outgoing[i])
        && canonical(d1.outgoing[i]) by {
        lemma_neg_congruent(masks[i], masks[i] as int);
    }
    lemma_decode_seq(d0.outgoing);
    lemma_decode_seq(d1.outgoing);
    let a = d0.mine->Some_0;
    let b = d0.outgoing;
    assert forall|i: int| 0 <= i < masks.len() implies represents(
        Value::Shared(#[trigger] a[i]),
        Value::Shared(b[i]),
        square_chain(start, i as nat),
    ) by {
        lemma_square_chain_canonical(start, i as nat);
        lemma_mask_cancels(square_chain(start, i as nat), masks[i]);
    }
}

/// The next `n` triples that the two sources hand out are valid.
pub open spec fn triples_valid<A: BeaverSource, B: BeaverSource>(s0: A, s1: B, n: nat) -> bool
    decreases n,
{
    n == 0 || (triple_valid(s0.next_triple(), s1.next_triple()) && triples_valid(
        s0.after_triple(),
        s1.after_triple(),
        (n - 1) as nat,
    ))
}

/// The two parties run their chains of squarings against each other
/// until both are complete, each with what is left of its source. The
/// result is the two chains and the number of rounds.
pub open spec fn run_chains<A: BeaverSource, B: BeaverSource>(
    p0: (ProgressView, A),
    p1: (ProgressView, B),
    fuel: nat,
) -> Option<(Seq<Value>, Seq<Value>, nat)>
    decreases fuel,
{
    match (p0.0, p1.0) {
        (ProgressView::Done(c0), ProgressView::Done(c1)) => Some((c0, c1, 0)),
        (ProgressView::Exchange(r0), ProgressView::Exchange(r1)) => if fuel == 0 {
            None
        } else {
            match (
                resume(r0.pending, payload(r1.pending), true),
                resume(r1.pending, payload(r0.pending), false),
            ) {
                (Ok(n0), Ok(n1)) => match run_chains(
                    absorb(r0, n0, p0.1),
                    absorb(r1, n1, p1.1),
                    (fuel - 1) as nat,
                ) {
                    Some((c0, c1, n)) => Some((c0, c1, n + 1)),
                    None => None,
                },
                _ => None,
            }
        },
        _ => None,
    }
}

/// The two chains hold, position by position, the chain of squarings that
/// starts from `x`.
pub open spec fn chains_represent(c0: Seq<Value>, c1: Seq<Value>, x: nat) -> bool {
    &&& c0.len() == c1.len()
    &&& c0.len() > 0
    &&& forall|i: int|
        0 <= i < c0.len() ==> represents(#[trigger] c0[i], c1[i], square_chain(x, i as nat))
}

/// The dummy sources of the two parties hand out valid triples for as long
/// as they are asked.
pub proof fn law_dummy_triples_valid(
    first: DummyScalarTripleSource,
    second: DummyScalarTripleSource,
    n: nat,
)
    requires
        first.am_first(),
        !second.am_first(),
    ensures
        triples_valid(first, second, n),
    decreases n,
{
    law_dummy_source_valid();
    if n > 0 {
        law_dummy_triples_valid(first, second, (n - 1) as nat);
    }
}

/// If the next `n` triples are valid, so are the next `n - 1`.
pub proof fn lemma_triples_valid_fewer<A: BeaverSource, B: BeaverSource>(s0: A, s1: B, n: nat)
    requires
        triples_valid(s0, s1, n),
        n > 0,
    ensures
        triples_valid(s0, s1, (n - 1) as nat),
    decreases n,
{
    if n > 1 {
        lemma_triples_valid_fewer(s0.after_triple(), s1.after_triple(), (n - 1) as nat);
    }
}

/// Two chains that hold the squarings of `x` so far are extended by `m`
/// more, in `m` rounds if the values are shared and in none if they are
/// public.
pub proof fn lemma_chains_advance<A: BeaverSource, B: BeaverSource>(
    c0: Seq<Value>,
    c1: Seq<Value>,
    x: nat,
    m: nat,
    s0: A,
    s1: B,
)
    requires
        chains_represent(c0, c1, x),
        triples_valid(s0, s1, m),
    ensures
        match run_chains(advance(c0, m, s0), advance(c1, m, s1), m) {
            Some((d0, d1, rounds)) => {
                &&& chains_represent(d0, d1, x)
                &&& d0.len() == c0.len() + m
                &&& rounds == (if c0.last() is Shared {
                    m
                } else {
                    0
                })
            },
            None => false,
        },
    decreases m,
{
    reveal_with_fuel(run_chains, 2);
    if m > 0 {
        let k = (c0.len() - 1) as nat;
        let v = square_chain(x, k);
        let t0 = s0.next_triple();
        let t1 = s1.next_triple();
        let last0 = c0.last();
        let last1 = c1.last();
        assert(represents(c0[k as int], c1[k as int], v));
        law_mul(last0, last1, v, last0, last1, v, t0, t1);
        reveal_with_fuel(run_both, 3);
        let (z0, z1, _) = run_both(
            mul_step(last0, last0, t0),
            mul_step(last1, last1, t1),
            1,
        )->Some_0;
        let d0 = c0.push(z0);
        let d1 = c1.push(z1);
        assert(square_chain(x, k + 1) == f_mul(v, v));
        assert(chains_represent(d0, d1, x)) by {
            assert forall|i: int| 0 <= i < d0.len() implies represents(
                #[trigger] d0[i],
                d1[i],
                square_chain(x, i as nat),
            ) by {
                if i < c0.len() {
                    assert(d0[i] == c0[i]);
                }
            }
        }
        match last0 {
            Value::Public(_) => {
                lemma_triples_valid_fewer(s0, s1, m);
                lemma_chains_advance(d0, d1, x, (m - 1) as nat, s0, s1);
            },
            Value::Shared(_) => {
                lemma_chains_advance(
                    d0,
                    d1,
                    x,
                    (m - 1) as nat,
                    s0.after_triple(),
                    s1.after_triple(),
                );
            },
        }
    }
}

/// Repeated squaring is correct: from a representation of `x`, with
/// sources whose next triples are valid, the two parties end with chains
/// that hold `x`, its square, the square of that, and so on; a shared start
/// takes exactly one round for every squaring, and a public one none.
pub proof fn law_squaring_chain<A: BeaverSource, B: BeaverSource>(
    x0: Value,
    x1: Value,
    x: nat,
    n: nat,
    s0: A,
    s1: B,
)
    requires
        represents(x0, x1, x),
        triples_valid(s0, s1, n),
    ensures
        match run_chains(advance(seq![x0], n, s0), advance(seq![x1], n, s1), n) {
            Some((c0, c1, rounds)) => {
                &&& chains_represent(c0, c1, x)
                &&& c0.len() == n + 1
                &&& rounds == (if x0 is Shared {
                    n
                } else {
                    0
                })
            },
            None => false,
        },
{
    lemma_chains_advance(seq![x0], seq![x1], x, n, s0, s1);
}

/// The two parties run the preparations of their joint statement against
/// each other until both are ready, each with what is left of its source.
/// The result is where both stand and the number of rounds.
pub open spec fn run_jobs<A: BeaverSource, B: BeaverSource>(
    p0: (MpcProgressView, A),
    p1: (MpcProgressView, B),
    fuel: nat,
) -> Option<(MpcProgressView, MpcProgressView, nat)>
    decreases fuel,
{
    match (p0.0, p1.0) {
        (MpcProgressView::Done { .. }, MpcProgressView::Done { .. }) => Some((p0.0, p1.0, 0)),
        (MpcProgressView::Exchange(r0), MpcProgressView::Exchange(r1)) => if fuel == 0 {
            None
        } else {
            match (
                mpc_resume(r0, mpc_payload(r1), true, p0.1),
                mpc_resume(r1, mpc_payload(r0), false, p1.1),
            ) {
                (Ok(n0), Ok(n1)) => match run_jobs(n0, n1, (fuel - 1) as nat) {
                    Some((a, b, n)) => Some((a, b, n + 1)),
                    None => None,
                },
                _ => None,
            }
        },
        _ => None,
    }
}

/// The two parties are ready with the chain of `n` squarings of `x`: each
/// holds its values of the whole chain, and both hold the last element of
/// the chain as the one public input.
pub open spec fn statement_ready(p0: MpcProgressView, p1: MpcProgressView, x: nat, n: nat) -> bool {
    match (p0, p1) {
        (
            MpcProgressView::Done { chain: c0, public_inputs: i0 },
            MpcProgressView::Done { chain: c1, public_inputs: i1 },
        ) => {
            &&& i0 == seq![square_chain(x, n)]
            &&& i1 == seq![square_chain(x, n)]
            &&& exists|d0: Seq<Value>, d1: Seq<Value>|
                {
                    &&& c0 == whole(d0)
                    &&& c1 == whole(d1)
                    &&& d0.len() == n + 1
                    &&& chains_represent(d0, d1, x)
                }
        },
        _ => false,
    }
}

/// The opening of the output runs as the steps of making a value public
/// do.
pub proof fn lemma_opening_runs<A: BeaverSource, B: BeaverSource>(
    c0: Seq<Option<Value>>,
    c1: Seq<Option<Value>>,
    st0: StepView,
    st1: StepView,
    s0: A,
    s1: B,
    fuel: nat,
)
    requires
        run_both(st0, st1, fuel) is Some,
    ensures
        ({
            let (z0, z1, k) = run_both(st0, st1, fuel)->Some_0;
            run_jobs((opening(c0, st0), s0), (opening(c1, st1), s1), fuel) == Some(
                (
                    MpcProgressView::Done { chain: c0, public_inputs: seq![z0.held()] },
                    MpcProgressView::Done { chain: c1, public_inputs: seq![z1.held()] },
                    k,
                ),
            )
        }),
    decreases fuel,
{
    reveal_with_fuel(run_both, 2);
    reveal_with_fuel(run_jobs, 2);
    match (st0, st1) {
        (StepView::Exchange(q0), StepView::Exchange(q1)) => {
            let n0 = resume(q0, payload(q1), true)->Ok_0;
            let n1 = resume(q1, payload(q0), false)->Ok_0;
            lemma_opening_runs(c0, c1, n0, n1, s0, s1, (fuel - 1) as nat);
        },
        _ => {},
    }
}

/// Two chains of shares that hold the squarings of `x` so far are extended
/// by `m` more in `m` rounds, and then the output is opened.
pub proof fn lemma_jobs_advance<A: BeaverSource, B: BeaverSource>(
    c0: Seq<Value>,
    c1: Seq<Value>,
    x: nat,
    m: nat,
    check: bool,
    s0: A,
    s1: B,
)
    requires
        chains_represent(c0, c1, x),
        c0.last() is Shared,
        triples_valid(s0, s1, m),
    ensures
        ({
            let a0 = advance(c0, m, s0);
            let a1 = advance(c1, m, s1);
            let j0 = (after_chain(a0.0, check), a0.1);
            let j1 = (after_chain(a1.0, check), a1.1);
            match run_jobs(j0, j1, m + 2) {
                Some((p0, p1, rounds)) => {
                    &&& statement_ready(p0, p1, x, (c0.len() - 1 + m) as nat)
                    &&& rounds == m + 1 + (if check {
                        1nat
                    } else {
                        0nat
                    })
                },
                None => false,
            }
        }),
    decreases m,
{
    reveal_with_fuel(run_jobs, 2);
    let k = (c0.len() - 1) as nat;
    let v = square_chain(x, k);
    let last0 = c0.last();
    let last1 = c1.last();
    assert(represents(c0[k as int], c1[k as int], v));
    if m == 0 {
        law_publicize(last0, last1, v, check);
        lemma_opening_runs(
            whole(c0),
            whole(c1),
            publicize_step(last0, check),
            publicize_step(last1, check),
            s0,
            s1,
            2,
        );
    } else {
        let t0 = s0.next_triple();
        let t1 = s1.next_triple();
        law_mul(last0, last1, v, last0, last1, v, t0, t1);
        reveal_with_fuel(run_both, 3);
        let (z0, z1, _) = run_both(
            mul_step(last0, last0, t0),
            mul_step(last1, last1, t1),
            1,
        )->Some_0;
        let d0 = c0.push(z0);
        let d1 = c1.push(z1);
        assert(square_chain(x, k + 1) == f_mul(v, v));
        assert(chains_represent(d0, d1, x)) by {
            assert forall|i: int| 0 <= i < d0.len() implies represents(
                #[trigger] d0[i],
                d1[i],
                square_chain(x, i as nat),
            ) by {
                if i < c0.len() {
                    assert(d0[i] == c0[i]);
                }
            }
        }
        lemma_jobs_advance(d0, d1, x, (m - 1) as nat, check, s0.after_triple(), s1.after_triple());
    }
}

/// The joint statement is prepared correctly: from two summands of `x`,
/// with sources whose next triples are valid, the two parties take exactly
/// one round of multiplication for every squaring, then one to open the
/// output and one more if it is compared, and end with their shares of the
/// whole chain and with its last element as the public input.
pub proof fn law_joint_statement<A: BeaverSource, B: BeaverSource>(
    share0: nat,
    share1: nat,
    n: nat,
    check: bool,
    s0: A,
    s1: B,
)
    requires
        canonical(share0),
        canonical(share1),
        triples_valid(s0, s1, n),
    ensures
        match run_jobs(mpc_begin(share0, n, check, s0), mpc_begin(share1, n, check, s1), n + 2) {
            Some((p0, p1, rounds)) => {
                &&& statement_ready(p0, p1, f_add(share0, share1), n)
                &&& rounds == n + 1 + (if check {
                    1nat
                } else {
                    0nat
                })
            },
            None => false,
        },
{
    let c0 = seq![Value::Shared(share0)];
    let c1 = seq![Value::Shared(share1)];
    lemma_jobs_advance(c0, c1, f_add(share0, share1), n, check, s0, s1);
}

} // verus!
