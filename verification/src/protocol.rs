//! The rounds of the online protocol, as resumable steps.
//!
//! An operation that needs the peer does not talk to it. It returns a
//! [`Step`]: either the finished value, or a [`Pending`] state together with
//! the payload to send. Whoever owns the connection sends the payload,
//! receives the peer's, and resumes the state with it. Both parties issue
//! the same steps in the same order; the payload of one is the reply of the
//! other.

use crate::algebra::canonical;
use crate::algebra::f_add;
use crate::algebra::f_inv;
use crate::algebra::f_mul;
use crate::algebra::f_sub;
use crate::algebra::lemma_inverse_unique;
use crate::bytes::le_value;
use crate::bytes::lemma_le_bytes_len;
use crate::bytes::lemma_le_value_of_bytes;
use crate::bytes::lemma_pow256_values;
use crate::error::MpcError;
use crate::field::Fr;
use crate::field::encoding;
use crate::share::AdditiveShare;
use crate::share::shifted;
use crate::wire::MpcField;
use crate::wire::Value;
use vstd::slice::slice_subrange;
use vstd::prelude::*;

verus! {

/// What follows an inversion. Model of [`After`].
pub enum AfterView {
    Finish,
    Scale(nat),
    Mul { x: nat, a: nat, b: nat, c: nat },
}

/// What follows a multiplication round. Model of [`Then`].
pub enum ThenView {
    Finish,
    Unmask { mask: nat, after: AfterView },
}

/// A party between sending its payload and receiving the peer's. Model of
/// [`Pending`].
pub enum PendingView {
    Open { share: nat, check: bool },
    Check { value: nat },
    Mul { d: nat, e: nat, a: nat, b: nat, c: nat, then: ThenView },
    Unmask { m: nat, mask: nat, after: AfterView },
}

/// Model of [`Step`].
pub enum StepView {
    Done(Value),
    Exchange(PendingView),
}

/// What a party sends in the round that `p` waits in.
pub open spec fn payload(p: PendingView) -> Seq<u8> {
    match p {
        PendingView::Open { share, .. } => encoding(share),
        PendingView::Check { value } => encoding(value),
        PendingView::Mul { d, e, .. } => encoding(d) + encoding(e),
        PendingView::Unmask { m, .. } => encoding(m),
    }
}

/// A reply that holds one field element.
pub open spec fn decode_one(reply: Seq<u8>) -> Result<nat, MpcError> {
    if reply.len() != 32 {
        Err(MpcError::ChannelTransport)
    } else if !canonical(le_value(reply)) {
        Err(MpcError::SerializationError)
    } else {
        Ok(le_value(reply))
    }
}

/// A reply that holds two field elements.
pub open spec fn decode_two(reply: Seq<u8>) -> Result<(nat, nat), MpcError> {
    if reply.len() != 64 {
        Err(MpcError::ChannelTransport)
    } else {
        match (decode_one(reply.subrange(0, 32)), decode_one(reply.subrange(32, 64))) {
            (Ok(x), Ok(y)) => Ok((x, y)),
            _ => Err(MpcError::SerializationError),
        }
    }
}

/// An element that was sent arrives.
pub proof fn lemma_decode_one(v: nat)
    requires
        canonical(v),
    ensures
        decode_one(encoding(v)) == Ok::<nat, MpcError>(v),
{
    lemma_pow256_values();
    lemma_le_bytes_len(v, 32);
    lemma_le_value_of_bytes(v, 32);
}

/// Two elements that were sent arrive.
pub proof fn lemma_decode_two(v: nat, w: nat)
    requires
        canonical(v),
        canonical(w),
    ensures
        decode_two(encoding(v) + encoding(w)) == Ok::<(nat, nat), MpcError>((v, w)),
{
    lemma_le_bytes_len(v, 32);
    lemma_le_bytes_len(w, 32);
    let both = encoding(v) + encoding(w);
    assert(both.subrange(0, 32) =~= encoding(v));
    assert(both.subrange(32, 64) =~= encoding(w));
    lemma_decode_one(v);
    lemma_decode_one(w);
}

/// This party's share of a product, from its shares of the triple and the
/// two opened masks: `c + D*b + E*a`, and `D*E` on the first party only.
pub open spec fn beaver_share(a: nat, b: nat, c: nat, dd: nat, ee: nat, am_first: bool) -> nat {
    shifted(f_add(f_add(c, f_mul(b, dd)), f_mul(a, ee)), f_mul(dd, ee), am_first)
}

/// The state of a party that has begun to multiply its shares `x` and `y`
/// with the triple `(a, b, c)`: it sends its shares of `x - a` and `y - b`.
pub open spec fn begin_mul(x: nat, y: nat, triple: (nat, nat, nat), then: ThenView) -> PendingView {
    PendingView::Mul {
        d: f_sub(x, triple.0),
        e: f_sub(y, triple.1),
        a: triple.0,
        b: triple.1,
        c: triple.2,
        then,
    }
}

/// What a party does with the share `w` of an inverse.
pub open spec fn finish_inverse(w: nat, after: AfterView) -> StepView {
    match after {
        AfterView::Finish => StepView::Done(Value::Shared(w)),
        AfterView::Scale(k) => StepView::Done(Value::Shared(f_mul(w, k))),
        AfterView::Mul { x, a, b, c } => StepView::Exchange(
            begin_mul(x, w, (a, b, c), ThenView::Finish),
        ),
    }
}

/// What a party in state `p` does with the peer's payload.
pub open spec fn resume(p: PendingView, reply: Seq<u8>, am_first: bool) -> Result<
    StepView,
    MpcError,
> {
    match p {
        PendingView::Open { share, check } => match decode_one(reply) {
            Ok(peer) => if check {
                Ok(StepView::Exchange(PendingView::Check { value: f_add(share, peer) }))
            } else {
                Ok(StepView::Done(Value::Public(f_add(share, peer))))
            },
            Err(e) => Err(e),
        },
        PendingView::Check { value } => match decode_one(reply) {
            Ok(peer) => if peer == value {
                Ok(StepView::Done(Value::Public(value)))
            } else {
                Err(MpcError::Desynchronized)
            },
            Err(e) => Err(e),
        },
        PendingView::Mul { d, e, a, b, c, then } => match decode_two(reply) {
            Ok((peer_d, peer_e)) => {
                let z = beaver_share(a, b, c, f_add(d, peer_d), f_add(e, peer_e), am_first);
                match then {
                    ThenView::Finish => Ok(StepView::Done(Value::Shared(z))),
                    ThenView::Unmask { mask, after } => Ok(
                        StepView::Exchange(PendingView::Unmask { m: z, mask, after }),
                    ),
                }
            },
            Err(e) => Err(e),
        },
        PendingView::Unmask { m, mask, after } => match decode_one(reply) {
            Ok(peer) => if f_add(m, peer) == 0 {
                Err(MpcError::NotInvertible)
            } else {
                Ok(finish_inverse(f_mul(mask, f_inv(f_add(m, peer))), after))
            },
            Err(e) => Err(e),
        },
    }
}

/// The number of rounds that a party in state `p` still has to take, if the
/// peer keeps to the protocol.
pub open spec fn rounds(p: PendingView) -> nat {
    match p {
        PendingView::Open { check, .. } => if check {
            2
        } else {
            1
        },
        PendingView::Check { .. } => 1,
        PendingView::Mul { then, .. } => match then {
            ThenView::Finish => 1,
            ThenView::Unmask { after, .. } => 2 + rounds_after(after),
        },
        PendingView::Unmask { after, .. } => 1 + rounds_after(after),
    }
}

/// The rounds that follow an inversion.
pub open spec fn rounds_after(after: AfterView) -> nat {
    match after {
        AfterView::Mul { .. } => 1,
        _ => 0,
    }
}

/// What follows an inversion.
#[derive(Clone, Copy, Debug, PartialEq, Eq)]
pub enum After {
    /// The inverse is the result.
    Finish,
    /// The inverse is scaled by a public element.
    Scale(Fr),
    /// The inverse is multiplied by the shared `x`, with the triple
    /// `(a, b, c)`.
    Mul { x: AdditiveShare, a: AdditiveShare, b: AdditiveShare, c: AdditiveShare },
}

/// What follows a multiplication round.
#[derive(Clone, Copy, Debug, PartialEq, Eq)]
pub enum Then {
    /// The product is the result.
    Finish,
    /// The product is a masked value that is opened and inverted: `mask`
    /// is the share of the mask, which is scaled by that inverse.
    Unmask { mask: AdditiveShare, after: After },
}

/// A party between sending its payload and receiving the peer's.
#[derive(Clone, Copy, Debug, PartialEq, Eq)]
pub enum Pending {
    /// Opening a share; `check` asks for a comparison of the result.
    Open { share: AdditiveShare, check: bool },
    /// Comparing a public value with the peer's.
    Check { value: Fr },
    /// Multiplying: `d` and `e` are the shares of the two masked factors,
    /// `(a, b, c)` the triple.
    Mul {
        d: AdditiveShare,
        e: AdditiveShare,
        a: AdditiveShare,
        b: AdditiveShare,
        c: AdditiveShare,
        then: Then,
    },
    /// Opening the masked value `m` in order to invert it.
    Unmask { m: AdditiveShare, mask: AdditiveShare, after: After },
}

/// Where an operation stands: finished, or waiting for the peer.
#[derive(Clone, Copy, Debug, PartialEq, Eq)]
pub enum Step {
    /// The operation is finished.
    Done(MpcField),
    /// The payload of the state is to be exchanged for the peer's.
    Exchange(Pending),
}

impl View for After {
    type V = AfterView;

    open spec fn view(&self) -> AfterView {
        match *self {
            After::Finish => AfterView::Finish,
            After::Scale(k) => AfterView::Scale(k@),
            After::Mul { x, a, b, c } => AfterView::Mul { x: x@, a: a@, b: b@, c: c@ },
        }
    }
}

impl View for Then {
    type V = ThenView;

    open spec fn view(&self) -> ThenView {
        match *self {
            Then::Finish => ThenView::Finish,
            Then::Unmask { mask, after } => ThenView::Unmask { mask: mask@, after: after@ },
        }
    }
}

impl View for Pending {
    type V = PendingView;

    open spec fn view(&self) -> PendingView {
        match *self {
            Pending::Open { share, check } => PendingView::Open { share: share@, check },
            Pending::Check { value } => PendingView::Check { value: value@ },
            Pending::Mul { d, e, a, b, c, then } => PendingView::Mul {
                d: d@,
                e: e@,
                a: a@,
                b: b@,
                c: c@,
                then: then@,
            },
            Pending::Unmask { m, mask, after } => PendingView::Unmask {
                m: m@,
                mask: mask@,
                after: after@,
            },
        }
    }
}

impl View for Step {
    type V = StepView;

    open spec fn view(&self) -> StepView {
        match *self {
            Step::Done(v) => StepView::Done(v@),
            Step::Exchange(p) => StepView::Exchange(p@),
        }
    }
}

/// The model of what `resume` returns.
pub open spec fn outcome_view(r: Result<Step, MpcError>) -> Result<StepView, MpcError> {
    match r {
        Ok(s) => Ok(s@),
        Err(e) => Err(e),
    }
}

/// Reads a reply that holds one field element.
pub fn read_one(reply: &[u8]) -> (r: Result<Fr, MpcError>)
    ensures
        match r {
            Ok(x) => decode_one(reply@) == Ok::<nat, MpcError>(x@),
            Err(e) => decode_one(reply@) == Err::<nat, MpcError>(e),
        },
{
    if reply.len() != 32 {
        return Err(MpcError::ChannelTransport);
    }
    match Fr::read_from(reply) {
        Some(x) => Ok(x),
        None => Err(MpcError::SerializationError),
    }
}

/// Reads a reply that holds two field elements.
pub fn read_two(reply: &[u8]) -> (r: Result<(Fr, Fr), MpcError>)
    ensures
        match r {
            Ok((x, y)) => decode_two(reply@) == Ok::<(nat, nat), MpcError>((x@, y@)),
            Err(e) => decode_two(reply@) == Err::<(nat, nat), MpcError>(e),
        },
{
    if reply.len() != 64 {
        return Err(MpcError::ChannelTransport);
    }
    let first = Fr::read_from(slice_subrange(reply, 0, 32));
    let second = Fr::read_from(slice_subrange(reply, 32, 64));
    match (first, second) {
        (Some(x), Some(y)) => Ok((x, y)),
        _ => Err(MpcError::SerializationError),
    }
}

/// Begins the multiplication of the shares `x` and `y` with the triple
/// `(a, b, c)`.
pub fn start_mul(
    x: AdditiveShare,
    y: AdditiveShare,
    triple: (AdditiveShare, AdditiveShare, AdditiveShare),
    then: Then,
) -> (p: Pending)
    ensures
        p@ == begin_mul(x@, y@, (triple.0@, triple.1@, triple.2@), then@),
{
    Pending::Mul {
        d: x.sub(triple.0),
        e: y.sub(triple.1),
        a: triple.0,
        b: triple.1,
        c: triple.2,
        then,
    }
}

/// The models of the shares of a triple.
pub open spec fn triple_view(t: (AdditiveShare, AdditiveShare, AdditiveShare)) -> (nat, nat, nat) {
    (t.0@, t.1@, t.2@)
}

/// The models of the shares of a pair.
pub open spec fn pair_view(p: (AdditiveShare, AdditiveShare)) -> (nat, nat) {
    (p.0@, p.1@)
}

/// The state of a party that has begun to invert its share `x` with the
/// pair `(r, r_inv)` and the triple. The share is multiplied by the mask
/// `r`, the product is opened and inverted in public, and the share of `r`
/// is scaled by that inverse: `r * (x * r)^-1` is the inverse of `x`. That
/// `r` has an inverse is what the pair stands for; its second component is
/// not needed online.
pub open spec fn begin_inv(
    x: nat,
    pair: (nat, nat),
    triple: (nat, nat, nat),
    after: AfterView,
) -> PendingView {
    begin_mul(x, pair.0, triple, ThenView::Unmask { mask: pair.0, after })
}

impl AdditiveShare {
    /// Opens the share: one round, in which each party sends its summand
    /// and adds the peer's to it.
    pub fn open(self) -> (p: Pending)
        ensures
            p@ == (PendingView::Open { share: self@, check: false }),
    {
        Pending::Open { share: self, check: false }
    }

    /// Multiplies two shares with the given triple: one round.
    pub fn mul(
        self,
        other: AdditiveShare,
        triple: (AdditiveShare, AdditiveShare, AdditiveShare),
    ) -> (p: Pending)
        ensures
            p@ == begin_mul(self@, other@, triple_view(triple), ThenView::Finish),
    {
        start_mul(self, other, triple, Then::Finish)
    }

    /// Begins the inversion of a share with the given pair and triple, and
    /// says what follows it. Two rounds.
    pub fn inv_then(
        self,
        pair: (AdditiveShare, AdditiveShare),
        triple: (AdditiveShare, AdditiveShare, AdditiveShare),
        after: After,
    ) -> (p: Pending)
        ensures
            p@ == begin_inv(self@, pair_view(pair), triple_view(triple), after@),
    {
        start_mul(self, pair.0, triple, Then::Unmask { mask: pair.0, after })
    }

    /// Inverts a share with the given pair and triple: two rounds.
    pub fn inv(
        self,
        pair: (AdditiveShare, AdditiveShare),
        triple: (AdditiveShare, AdditiveShare, AdditiveShare),
    ) -> (p: Pending)
        ensures
            p@ == begin_inv(self@, pair_view(pair), triple_view(triple), AfterView::Finish),
    {
        self.inv_then(pair, triple, After::Finish)
    }

    /// Divides a share by another: the divisor is inverted with the pair
    /// and the first triple, then the dividend is multiplied by the inverse
    /// with the second. Three rounds.
    pub fn div(
        self,
        other: AdditiveShare,
        pair: (AdditiveShare, AdditiveShare),
        first: (AdditiveShare, AdditiveShare, AdditiveShare),
        second: (AdditiveShare, AdditiveShare, AdditiveShare),
    ) -> (p: Pending)
        ensures
            p@ == begin_inv(
                other@,
                pair_view(pair),
                triple_view(first),
                AfterView::Mul { x: self@, a: second.0@, b: second.1@, c: second.2@ },
            ),
    {
        other.inv_then(
            pair,
            first,
            After::Mul { x: self, a: second.0, b: second.1, c: second.2 },
        )
    }
}

impl Pending {
    /// The bytes to send to the peer in this round.
    pub fn payload(&self) -> (out: Vec<u8>)
        ensures
            out@ == payload(self@),
    {
        let mut out: Vec<u8> = Vec::new();
        match self {
            Pending::Open { share, .. } => {
                share.unwrap_as_public().write_to(&mut out);
            },
            Pending::Check { value } => {
                value.write_to(&mut out);
            },
            Pending::Mul { d, e, .. } => {
                d.unwrap_as_public().write_to(&mut out);
                e.unwrap_as_public().write_to(&mut out);
            },
            Pending::Unmask { m, .. } => {
                m.unwrap_as_public().write_to(&mut out);
            },
        }
        out
    }

    /// Takes the peer's payload of this round and goes on: to the finished
    /// value, to the next round, or to the error that ends the run.
    pub fn resume(self, reply: &[u8], am_first: bool) -> (r: Result<Step, MpcError>)
        ensures
            outcome_view(r) == resume(self@, reply@, am_first),
    {
        match self {
            Pending::Open { share, check } => {
                let peer = read_one(reply)?;
                let value = share.unwrap_as_public().add(&peer);
                if check {
                    Ok(Step::Exchange(Pending::Check { value }))
                } else {
                    Ok(Step::Done(MpcField::Public(value)))
                }
            },
            Pending::Check { value } => {
                let peer = read_one(reply)?;
                if peer.same(&value) {
                    Ok(Step::Done(MpcField::Public(value)))
                } else {
                    Err(MpcError::Desynchronized)
                }
            },
            Pending::Mul { d, e, a, b, c, then } => {
                let (peer_d, peer_e) = read_two(reply)?;
                let dd = d.unwrap_as_public().add(&peer_d);
                let ee = e.unwrap_as_public().add(&peer_e);
                let z = c.add(b.scale(&dd)).add(a.scale(&ee)).shift(&dd.mul(&ee), am_first);
                match then {
                    Then::Finish => Ok(Step::Done(MpcField::Shared(z))),
                    Then::Unmask { mask, after } => Ok(
                        Step::Exchange(Pending::Unmask { m: z, mask, after }),
                    ),
                }
            },
            Pending::Unmask { m, mask, after } => {
                let peer = read_one(reply)?;
                let opened = m.unwrap_as_public().add(&peer);
                match opened.inverse() {
                    None => Err(MpcError::NotInvertible),
                    Some(inv) => {
                        proof {
                            lemma_inverse_unique(opened@, inv@, f_inv(opened@));
                        }
                        let w = mask.scale(&inv);
                        match after {
                            After::Finish => Ok(Step::Done(MpcField::Shared(w))),
                            After::Scale(k) => Ok(Step::Done(MpcField::Shared(w.scale(&k)))),
                            After::Mul { x, a, b, c } => Ok(
                                Step::Exchange(start_mul(x, w, (a, b, c), Then::Finish)),
                            ),
                        }
                    },
                }
            },
        }
    }
}

} // verus!
