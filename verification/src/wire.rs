//! The value that user code computes with: a field element that is either
//! public or shared.
//!
//! Every operation looks at the tags of its operands. Sums, differences and
//! products with a public factor are local. A product or an inverse of
//! shared values draws correlated randomness and returns the first step of
//! its protocol.

use crate::algebra::canonical;
use crate::algebra::f_add;
use crate::algebra::f_inv;
use crate::algebra::f_mul;
use crate::algebra::f_neg;
use crate::algebra::f_sub;
use crate::algebra::is_inverse;
use crate::algebra::lemma_inverse_unique;
use crate::algebra::modulus;
use crate::beaver::BeaverSource;
use crate::error::MpcError;
use crate::field::Fr;
use crate::field::decimal_value;
use crate::field::generator;
use crate::field::is_decimal;
use crate::field::limbs_value;
use crate::field::proposed;
use crate::field::two_adic_root;
use crate::protocol::After;
use crate::protocol::AfterView;
use crate::protocol::Pending;
use crate::protocol::PendingView;
use crate::protocol::Step;
use crate::protocol::StepView;
use crate::protocol::ThenView;
use crate::protocol::begin_inv;
use crate::protocol::begin_mul;
use crate::share::AdditiveShare;
use crate::share::public_share;
use crate::share::shifted;
use vstd::pervasive::unreached;
use vstd::prelude::*;

verus! {

/// Model of [`MpcField`]: the tag, and the canonical number that this party
/// holds.
pub enum Value {
    Public(nat),
    Shared(nat),
}

impl Value {
    /// The number that the party holds, whatever the tag.
    pub open spec fn held(self) -> nat {
        match self {
            Value::Public(p) => p,
            Value::Shared(s) => s,
        }
    }
}

/// The sum, by tags: public and public stay public; a public summand is
/// added to the first party's share; shares are added.
pub open spec fn add_value(x: Value, y: Value, am_first: bool) -> Value {
    match (x, y) {
        (Value::Public(p), Value::Public(q)) => Value::Public(f_add(p, q)),
        (Value::Public(p), Value::Shared(s)) => Value::Shared(shifted(s, p, am_first)),
        (Value::Shared(s), Value::Public(p)) => Value::Shared(shifted(s, p, am_first)),
        (Value::Shared(s), Value::Shared(t)) => Value::Shared(f_add(s, t)),
    }
}

/// The difference, by tags.
pub open spec fn sub_value(x: Value, y: Value, am_first: bool) -> Value {
    match (x, y) {
        (Value::Public(p), Value::Public(q)) => Value::Public(f_sub(p, q)),
        (Value::Public(p), Value::Shared(s)) => Value::Shared(shifted(f_neg(s), p, am_first)),
        (Value::Shared(s), Value::Public(p)) => Value::Shared(shifted(s, f_neg(p), am_first)),
        (Value::Shared(s), Value::Shared(t)) => Value::Shared(f_sub(s, t)),
    }
}

/// The negation: the tag stays.
pub open spec fn neg_value(x: Value) -> Value {
    match x {
        Value::Public(p) => Value::Public(f_neg(p)),
        Value::Shared(s) => Value::Shared(f_neg(s)),
    }
}

/// The value times the public element `k`: the tag stays.
pub open spec fn scale_value(x: Value, k: nat) -> Value {
    match x {
        Value::Public(p) => Value::Public(f_mul(p, k)),
        Value::Shared(s) => Value::Shared(f_mul(s, k)),
    }
}

/// The first step of a product. Only two shared factors need the peer, and
/// only they use the triple.
pub open spec fn mul_step(x: Value, y: Value, triple: (nat, nat, nat)) -> StepView {
    match (x, y) {
        (Value::Shared(s), Value::Shared(t)) => StepView::Exchange(
            begin_mul(s, t, triple, ThenView::Finish),
        ),
        (Value::Public(p), _) => StepView::Done(scale_value(y, p)),
        (_, Value::Public(q)) => StepView::Done(scale_value(x, q)),
    }
}

/// The first step of an inversion, if there is one: a public 0 has no
/// inverse. A shared value is multiplied by the first component of the
/// pair, the product is opened and inverted in public, and the second
/// component is scaled by that inverse.
pub open spec fn inv_step(x: Value, pair: (nat, nat), triple: (nat, nat, nat)) -> Option<
    StepView,
> {
    match x {
        Value::Public(p) => if p == 0 {
            None
        } else {
            Some(StepView::Done(Value::Public(f_inv(p))))
        },
        Value::Shared(s) => Some(StepView::Exchange(begin_inv(s, pair, triple, AfterView::Finish))),
    }
}

/// The first step of a quotient whose divisor is not the public 0. A shared
/// divisor is inverted with `pair` and `first`; if the dividend is shared
/// too, `second` serves the product that follows.
pub open spec fn div_step(
    x: Value,
    y: Value,
    pair: (nat, nat),
    first: (nat, nat, nat),
    second: (nat, nat, nat),
) -> StepView {
    match (x, y) {
        (_, Value::Public(q)) => StepView::Done(scale_value(x, f_inv(q))),
        (Value::Public(p), Value::Shared(t)) => StepView::Exchange(
            begin_inv(t, pair, first, AfterView::Scale(p)),
        ),
        (Value::Shared(s), Value::Shared(t)) => StepView::Exchange(
            begin_inv(
                t,
                pair,
                first,
                AfterView::Mul { x: s, a: second.0, b: second.1, c: second.2 },
            ),
        ),
    }
}

/// The first step of making a value public. A share is opened. With
/// `check`, the public value is then compared with the peer's.
pub open spec fn publicize_step(x: Value, check: bool) -> StepView {
    match x {
        Value::Public(p) => if check {
            StepView::Exchange(PendingView::Check { value: p })
        } else {
            StepView::Done(Value::Public(p))
        },
        Value::Shared(s) => StepView::Exchange(PendingView::Open { share: s, check }),
    }
}

/// Whether an element is 0, a square, or neither.
#[derive(Clone, Copy, Debug, PartialEq, Eq, Structural)]
pub enum LegendreSymbol {
    Zero,
    QuadraticResidue,
    QuadraticNonResidue,
}

/// A field element in a two-party computation.
#[derive(Clone, Copy, Debug, PartialEq, Eq, Hash)]
pub enum MpcField {
    /// Both parties hold the same element.
    Public(Fr),
    /// Each party holds one summand of the element.
    Shared(AdditiveShare),
}

impl View for MpcField {
    type V = Value;

    open spec fn view(&self) -> Value {
        match *self {
            MpcField::Public(p) => Value::Public(p@),
            MpcField::Shared(s) => Value::Shared(s@),
        }
    }
}

impl MpcField {
    /// A constant that both parties know.
    pub fn from_public(b: Fr) -> (r: MpcField)
        ensures
            r@ == Value::Public(b@),
    {
        MpcField::Public(b)
    }

    /// A secret of which `b` is this party's summand.
    pub fn from_add_shared(b: Fr) -> (r: MpcField)
        ensures
            r@ == Value::Shared(b@),
    {
        MpcField::Shared(AdditiveShare::from_add_shared(b))
    }

    /// The value that holds `val` under the given tag.
    pub fn new(val: Fr, shared: bool) -> (r: MpcField)
        ensures
            r@ == (if shared {
                Value::Shared(val@)
            } else {
                Value::Public(val@)
            }),
    {
        if shared {
            MpcField::Shared(AdditiveShare::wrap_as_shared(val))
        } else {
            MpcField::Public(val)
        }
    }

    /// The public constant that a 64-bit number stands for.
    pub fn from_u64(x: u64) -> (r: MpcField)
        ensures
            r@ == Value::Public(x as nat),
    {
        MpcField::Public(Fr::from_u64(x))
    }

    /// The public constant that a 128-bit number stands for.
    pub fn from_u128(x: u128) -> (r: MpcField)
        ensures
            r@ == Value::Public(x as nat),
    {
        MpcField::Public(Fr::from_u128(x))
    }

    /// The public constant 1 for `true` and 0 for `false`.
    pub fn from_bool(b: bool) -> (r: MpcField)
        ensures
            r@ == Value::Public(
                if b {
                    1nat
                } else {
                    0nat
                },
            ),
    {
        MpcField::Public(Fr::from_bool(b))
    }

    /// Reads a decimal numeral as a public constant.
    pub fn from_str(s: &str) -> (r: Result<MpcField, ()>)
        ensures
            match r {
                Ok(v) => is_decimal(s@) && v@ == Value::Public(decimal_value(s@) % modulus()),
                Err(_) => !is_decimal(s@),
            },
    {
        match Fr::from_str(s) {
            Some(x) => Ok(MpcField::Public(x)),
            None => Err(()),
        }
    }

    /// The public constant with the given limbs, if they hold a number
    /// below the field order. No shared value comes into being this way.
    pub fn from_repr(limbs: [u64; 4]) -> (r: Option<MpcField>)
        ensures
            match r {
                Some(v) => {
                    &&& v@ == Value::Public(limbs_value(limbs[0], limbs[1], limbs[2], limbs[3]))
                    &&& canonical(limbs_value(limbs[0], limbs[1], limbs[2], limbs[3]))
                },
                None => !canonical(limbs_value(limbs[0], limbs[1], limbs[2], limbs[3])),
            },
    {
        match Fr::from_repr(limbs) {
            Some(x) => Some(MpcField::from_public(x)),
            None => None,
        }
    }

    /// The limbs of the number that this party holds. On a shared value
    /// this declassifies the local summand.
    pub fn into_repr(&self) -> (limbs: [u64; 4])
        ensures
            limbs_value(limbs[0], limbs[1], limbs[2], limbs[3]) == self@.held(),
    {
        self.unwrap_as_public().into_repr()
    }

    /// The value that random bytes propose, as a shared value: the proposed
    /// element is taken as a public constant and held as its share, which
    /// the first party has and the other has as 0. No flags are read from
    /// the bytes: a field element carries none.
    pub fn from_random_bytes(bytes: &[u8], am_first: bool) -> (r: Option<MpcField>)
        ensures
            match r {
                Some(v) => {
                    &&& v@ == Value::Shared(public_share(proposed(bytes@), am_first))
                    &&& canonical(proposed(bytes@))
                },
                None => !canonical(proposed(bytes@)),
            },
    {
        match Fr::from_random_bytes(bytes) {
            Some(x) => Some(MpcField::Shared(AdditiveShare::from_public(x, am_first))),
            None => None,
        }
    }

    /// The element of the field that a list of elements of its prime field
    /// stands for. The field is its own prime field, so the list must have
    /// exactly one element, which is the result. The tags in the list must
    /// agree.
    pub fn from_base_prime_field_elems(b: &[MpcField]) -> (r: Option<MpcField>)
        requires
            b@.len() > 0,
            forall|i: int|
                0 <= i < b@.len() ==> (((#[trigger] b@[i])@ is Shared) == (b@[0]@ is Shared)),
        ensures
            match r {
                Some(v) => b@.len() == 1 && v@ == b@[0]@,
                None => b@.len() != 1,
            },
    {
        if b.len() != 1 {
            None
        } else {
            let shared = b[0].is_shared();
            Some(MpcField::new(b[0].unwrap_as_public(), shared))
        }
    }

    /// The public root of unity of order `2^47`.
    pub fn two_adic_root_of_unity() -> (r: MpcField)
        ensures
            r@ == Value::Public(two_adic_root()),
    {
        MpcField::from_public(Fr::two_adic_root_of_unity())
    }

    /// The public root of unity of a subgroup of mixed order. This field
    /// has none.
    pub fn large_subgroup_root_of_unity() -> (r: Option<MpcField>)
        ensures
            r is None,
    {
        match Fr::large_subgroup_root_of_unity() {
            Some(x) => Some(MpcField::from_public(x)),
            None => None,
        }
    }

    /// The public multiplicative generator of the field.
    pub fn multiplicative_generator() -> (r: MpcField)
        ensures
            r@ == Value::Public(generator()),
    {
        MpcField::from_public(Fr::multiplicative_generator())
    }

    /// The degree of the field over its prime field. The lift does not
    /// answer this.
    pub fn extension_degree() -> (r: Result<u64, MpcError>)
        ensures
            r == Err::<u64, MpcError>(MpcError::ProtocolUnsupported),
    {
        Err(MpcError::ProtocolUnsupported)
    }

    /// The Frobenius map. The lift has no protocol for it: the value stays
    /// as it is and the call fails.
    pub fn frobenius_map(&mut self, power: usize) -> (r: Result<(), MpcError>)
        ensures
            r == Err::<(), MpcError>(MpcError::ProtocolUnsupported),
            *final(self) == *old(self),
    {
        Err(MpcError::ProtocolUnsupported)
    }

    /// The Legendre symbol. The lift has no protocol for it.
    pub fn legendre(&self) -> (r: Result<LegendreSymbol, MpcError>)
        ensures
            r == Err::<LegendreSymbol, MpcError>(MpcError::ProtocolUnsupported),
    {
        Err(MpcError::ProtocolUnsupported)
    }

    /// The square root. The lift has no protocol for it.
    pub fn sqrt(&self) -> (r: Result<Option<MpcField>, MpcError>)
        ensures
            r == Err::<Option<MpcField>, MpcError>(MpcError::ProtocolUnsupported),
    {
        Err(MpcError::ProtocolUnsupported)
    }

    /// The square root in place. The lift has no protocol for it: the value
    /// stays as it is and the call fails.
    pub fn sqrt_in_place(&mut self) -> (r: Result<(), MpcError>)
        ensures
            r == Err::<(), MpcError>(MpcError::ProtocolUnsupported),
            *final(self) == *old(self),
    {
        Err(MpcError::ProtocolUnsupported)
    }

    /// The public constant 0.
    pub fn zero() -> (r: MpcField)
        ensures
            r@ == Value::Public(0),
    {
        MpcField::Public(Fr::zero())
    }

    /// The public constant 1.
    pub fn one() -> (r: MpcField)
        ensures
            r@ == Value::Public(1),
    {
        MpcField::Public(Fr::one())
    }

    /// The number that this party holds is canonical. This costs nothing
    /// at run time; it hands the fact to a proof.
    pub fn canonical_view(&self)
        ensures
            canonical(self@.held()),
    {
        match self {
            MpcField::Public(p) => p.canonical_view(),
            MpcField::Shared(s) => s.canonical_view(),
        }
    }

    /// Whether the value is shared.
    pub fn is_shared(&self) -> (b: bool)
        ensures
            b == (self@ is Shared),
    {
        match self {
            MpcField::Shared(_) => true,
            MpcField::Public(_) => false,
        }
    }

    /// Changes the tag and keeps the number that this party holds. No round
    /// is taken: the peer has to do the same. Going from shared to public
    /// this way declassifies the local summand.
    pub fn set_shared(&mut self, shared: bool)
        ensures
            final(self)@ == (if shared {
                Value::Shared(old(self)@.held())
            } else {
                Value::Public(old(self)@.held())
            }),
    {
        if shared != self.is_shared() {
            match *self {
                MpcField::Shared(s) => {
                    *self = MpcField::Public(s.unwrap_as_public());
                },
                MpcField::Public(p) => {
                    *self = MpcField::Shared(AdditiveShare::wrap_as_shared(p));
                },
            }
        }
    }

    /// The number that this party holds, as if it were public. On a shared
    /// value this declassifies the local summand.
    pub fn unwrap_as_public(&self) -> (b: Fr)
        ensures
            b@ == self@.held(),
    {
        match self {
            MpcField::Shared(s) => s.unwrap_as_public(),
            MpcField::Public(p) => *p,
        }
    }

    /// The sum. It is local for every pair of tags.
    pub fn add(self, other: MpcField, am_first: bool) -> (r: MpcField)
        ensures
            r@ == add_value(self@, other@, am_first),
    {
        match (self, other) {
            (MpcField::Public(x), MpcField::Public(y)) => MpcField::Public(x.add(&y)),
            (MpcField::Public(x), MpcField::Shared(y)) => MpcField::Shared(y.shift(&x, am_first)),
            (MpcField::Shared(x), MpcField::Public(y)) => MpcField::Shared(x.shift(&y, am_first)),
            (MpcField::Shared(x), MpcField::Shared(y)) => MpcField::Shared(x.add(y)),
        }
    }

    /// The difference. It is local for every pair of tags.
    pub fn sub(self, other: MpcField, am_first: bool) -> (r: MpcField)
        ensures
            r@ == sub_value(self@, other@, am_first),
    {
        match (self, other) {
            (MpcField::Public(x), MpcField::Public(y)) => MpcField::Public(x.sub(&y)),
            (MpcField::Public(x), MpcField::Shared(y)) => MpcField::Shared(
                y.neg().shift(&x, am_first),
            ),
            (MpcField::Shared(x), MpcField::Public(y)) => MpcField::Shared(
                x.shift(&y.neg(), am_first),
            ),
            (MpcField::Shared(x), MpcField::Shared(y)) => MpcField::Shared(x.sub(y)),
        }
    }

    /// The negation. It is local.
    pub fn neg(self) -> (r: MpcField)
        ensures
            r@ == neg_value(self@),
    {
        match self {
            MpcField::Public(x) => MpcField::Public(x.neg()),
            MpcField::Shared(x) => MpcField::Shared(x.neg()),
        }
    }

    /// The value times a public element. It is local.
    pub fn scale(self, k: &Fr) -> (r: MpcField)
        ensures
            r@ == scale_value(self@, k@),
    {
        match self {
            MpcField::Public(x) => MpcField::Public(x.mul(k)),
            MpcField::Shared(x) => MpcField::Shared(x.scale(k)),
        }
    }

    /// Twice the value. It is local.
    pub fn double(&self) -> (r: MpcField)
        ensures
            r@ == scale_value(self@, 2),
    {
        self.scale(&Fr::from_u64(2))
    }

    /// Doubles the value in place. It is local.
    pub fn double_in_place(&mut self)
        ensures
            final(self)@ == scale_value(old(self)@, 2),
    {
        *self = self.double();
    }

    /// The product. With a public factor it is finished at once and the
    /// source is left alone. Two shared factors draw exactly one triple and
    /// take one round.
    pub fn mul<B: BeaverSource>(self, other: MpcField, src: &mut B) -> (step: Step)
        ensures
            step@ == mul_step(self@, other@, old(src).next_triple()),
            *final(src) == (if self@ is Shared && other@ is Shared {
                old(src).after_triple()
            } else {
                *old(src)
            }),
    {
        match (self, other) {
            (MpcField::Shared(x), MpcField::Shared(y)) => {
                let triple = src.triple();
                Step::Exchange(x.mul(y, triple))
            },
            (MpcField::Public(x), _) => Step::Done(other.scale(&x)),
            (_, MpcField::Public(y)) => Step::Done(self.scale(&y)),
        }
    }

    /// The square: the product of the value with itself. The value itself
    /// stays as it is: a square that takes a round cannot be stored before
    /// the round is over, so there is no form in place.
    pub fn square<B: BeaverSource>(&self, src: &mut B) -> (step: Step)
        ensures
            step@ == mul_step(self@, self@, old(src).next_triple()),
            *final(src) == (if self@ is Shared {
                old(src).after_triple()
            } else {
                *old(src)
            }),
    {
        self.mul(*self, src)
    }

    /// The inverse. A public value is inverted at once, and 0 has none. A
    /// shared value draws exactly one pair, then one triple, and takes two
    /// rounds; that it is 0 shows only when the masked value is opened.
    /// Like the square, it has no form in place.
    pub fn inv<B: BeaverSource>(self, src: &mut B) -> (r: Option<Step>)
        ensures
            match r {
                Some(step) => inv_step(
                    self@,
                    old(src).next_pair(),
                    old(src).after_pair().next_triple(),
                ) == Some(step@),
                None => self@ == Value::Public(0),
            },
            self@ is Public && self@ != Value::Public(0) ==> is_inverse(
                self@.held(),
                f_inv(self@.held()),
            ),
            *final(src) == (if self@ is Shared {
                old(src).after_pair().after_triple()
            } else {
                *old(src)
            }),
    {
        match self {
            MpcField::Public(x) => match x.inverse() {
                Some(y) => {
                    proof {
                        lemma_inverse_unique(x@, y@, f_inv(x@));
                    }
                    Some(Step::Done(MpcField::Public(y)))
                },
                None => None,
            },
            MpcField::Shared(x) => {
                let pair = src.inv_pair();
                let triple = src.triple();
                Some(Step::Exchange(x.inv(pair, triple)))
            },
        }
    }

    /// The inverse, under the name that the field interface gives it.
    pub fn inverse<B: BeaverSource>(&self, src: &mut B) -> (r: Option<Step>)
        ensures
            match r {
                Some(step) => inv_step(
                    self@,
                    old(src).next_pair(),
                    old(src).after_pair().next_triple(),
                ) == Some(step@),
                None => self@ == Value::Public(0),
            },
            self@ is Public && self@ != Value::Public(0) ==> is_inverse(
                self@.held(),
                f_inv(self@.held()),
            ),
            *final(src) == (if self@ is Shared {
                old(src).after_pair().after_triple()
            } else {
                *old(src)
            }),
    {
        self.inv(src)
    }

    /// The quotient. A public divisor must not be 0; dividing by it is
    /// local and leaves the source alone. A shared divisor is inverted
    /// first (one pair, then one triple, two rounds); a shared dividend
    /// then takes a second triple and a third round.
    pub fn div<B: BeaverSource>(self, other: MpcField, src: &mut B) -> (step: Step)
        requires
            other@ != Value::Public(0),
        ensures
            step@ == div_step(
                self@,
                other@,
                old(src).next_pair(),
                old(src).after_pair().next_triple(),
                old(src).after_pair().after_triple().next_triple(),
            ),
            other@ is Public ==> is_inverse(other@.held(), f_inv(other@.held())),
            *final(src) == (if other@ is Public {
                *old(src)
            } else if self@ is Public {
                old(src).after_pair().after_triple()
            } else {
                old(src).after_pair().after_triple().after_triple()
            }),
    {
        match (self, other) {
            (_, MpcField::Public(y)) => match y.inverse() {
                Some(y_inv) => {
                    proof {
                        lemma_inverse_unique(y@, y_inv@, f_inv(y@));
                    }
                    Step::Done(self.scale(&y_inv))
                },
                None => unreached(),
            },
            (MpcField::Public(x), MpcField::Shared(y)) => {
                let pair = src.inv_pair();
                let first = src.triple();
                Step::Exchange(y.inv_then(pair, first, After::Scale(x)))
            },
            (MpcField::Shared(x), MpcField::Shared(y)) => {
                let pair = src.inv_pair();
                let first = src.triple();
                let second = src.triple();
                Step::Exchange(x.div(y, pair, first, second))
            },
        }
    }

    /// The first step of making the value public. A share is opened in one
    /// round. With `check`, one more round compares the public value with
    /// the peer's, and a difference ends the run as desynchronized.
    pub fn publicize(self, check: bool) -> (step: Step)
        ensures
            step@ == publicize_step(self@, check),
    {
        match self {
            MpcField::Public(value) => if check {
                Step::Exchange(Pending::Check { value })
            } else {
                Step::Done(self)
            },
            MpcField::Shared(share) => Step::Exchange(Pending::Open { share, check }),
        }
    }

    /// The first step of revealing the value. It takes the rounds of
    /// `publicize`; the plain element is read off the finished step.
    pub fn reveal_value(self, check: bool) -> (step: Step)
        ensures
            step@ == publicize_step(self@, check),
    {
        self.publicize(check)
    }
}

impl Step {
    /// The value of a finished step.
    pub fn finished(&self) -> (r: Option<MpcField>)
        ensures
            match r {
                Some(v) => self@ == StepView::Done(v@),
                None => self@ is Exchange,
            },
    {
        match self {
            Step::Done(v) => Some(*v),
            Step::Exchange(_) => None,
        }
    }

    /// The plain element of a step that finished with a public value.
    pub fn revealed(&self) -> (r: Option<Fr>)
        ensures
            match r {
                Some(v) => self@ == StepView::Done(Value::Public(v@)),
                None => !(self@ matches StepView::Done(Value::Public(_))),
            },
    {
        match self {
            Step::Done(MpcField::Public(v)) => Some(*v),
            _ => None,
        }
    }
}

} // verus!
