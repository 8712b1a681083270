//! Additive shares: each party holds one summand of a secret.
//!
//! Everything in this file is local. The operations that need the peer are
//! in the protocol module.

use crate::algebra::canonical;
use crate::algebra::f_add;
use crate::algebra::f_mul;
use crate::algebra::f_neg;
use crate::algebra::f_sub;
use crate::field::Fr;
use vstd::prelude::*;

verus! {

/// The share of a public constant: the first party holds it, the other 0.
pub open spec fn public_share(k: nat, am_first: bool) -> nat {
    if am_first {
        k
    } else {
        0
    }
}

/// A share after the public constant `k` was added to the secret: only the
/// first party adds it.
pub open spec fn shifted(s: nat, k: nat, am_first: bool) -> nat {
    if am_first {
        f_add(s, k)
    } else {
        s
    }
}

/// One party's summand of a secret field element.
#[derive(Clone, Copy, Debug, PartialEq, Eq, Hash, Structural)]
pub struct AdditiveShare {
    val: Fr,
}

impl View for AdditiveShare {
    type V = nat;

    closed spec fn view(&self) -> nat {
        self.val@
    }
}

impl AdditiveShare {
    /// Two shares with the same value are the same share.
    pub proof fn lemma_view_injective(a: AdditiveShare, b: AdditiveShare)
        ensures
            a@ == b@ <==> a == b,
    {
        Fr::lemma_view_injective(a.val, b.val);
    }

    /// The summand is canonical. This costs nothing at run time; it hands
    /// the fact to a proof.
    pub fn canonical_view(&self)
        ensures
            canonical(self@),
    {
        self.val.canonical_view()
    }

    /// Takes a locally held summand as this party's share.
    pub fn from_add_shared(b: Fr) -> (s: AdditiveShare)
        ensures
            s@ == b@,
    {
        AdditiveShare { val: b }
    }

    /// The share of a constant that both parties know.
    pub fn from_public(b: Fr, am_first: bool) -> (s: AdditiveShare)
        ensures
            s@ == public_share(b@, am_first),
    {
        if am_first {
            AdditiveShare { val: b }
        } else {
            AdditiveShare { val: Fr::zero() }
        }
    }

    /// Relabels a local value as a share, without changing it. The peer has
    /// to do the same.
    pub fn wrap_as_shared(b: Fr) -> (s: AdditiveShare)
        ensures
            s@ == b@,
    {
        AdditiveShare { val: b }
    }

    /// Hands out the local summand as if it were public. This declassifies:
    /// it is only meant for values that are not secret.
    pub fn unwrap_as_public(self) -> (b: Fr)
        ensures
            b@ == self@,
    {
        self.val
    }

    /// A share of the sum of two secrets.
    pub fn add(self, other: AdditiveShare) -> (s: AdditiveShare)
        ensures
            s@ == f_add(self@, other@),
    {
        AdditiveShare { val: self.val.add(&other.val) }
    }

    /// A share of the difference of two secrets.
    pub fn sub(self, other: AdditiveShare) -> (s: AdditiveShare)
        ensures
            s@ == f_sub(self@, other@),
    {
        AdditiveShare { val: self.val.sub(&other.val) }
    }

    /// A share of the negated secret.
    pub fn neg(self) -> (s: AdditiveShare)
        ensures
            s@ == f_neg(self@),
    {
        AdditiveShare { val: self.val.neg() }
    }

    /// A share of the secret times the public scalar `k`.
    pub fn scale(self, k: &Fr) -> (s: AdditiveShare)
        ensures
            s@ == f_mul(self@, k@),
    {
        AdditiveShare { val: self.val.mul(k) }
    }

    /// A share of the secret plus the public constant `k`.
    pub fn shift(self, k: &Fr, am_first: bool) -> (s: AdditiveShare)
        ensures
            s@ == shifted(self@, k@, am_first),
    {
        if am_first {
            AdditiveShare { val: self.val.add(k) }
        } else {
            self
        }
    }
}

} // verus!
