//! Correlated randomness for the online phase: multiplication triples and
//! inversion pairs, handed out as shares.

use crate::field::Fr;
use crate::share::AdditiveShare;
use crate::share::public_share;
use vstd::prelude::*;

verus! {

/// A supplier of correlated randomness.
///
/// Jointly, a triple `(a, b, c)` has `a * b = c` and a pair `(r, s)` has
/// `r * s = 1`. One party sees only its own shares, so neither can be asked
/// of a single source: the laws on two parties take the validity of what
/// both drew as their premise.
///
/// What a source hands out next, and what it is afterwards, is named by its
/// specification functions, so that an operation that draws from it can say
/// which shares it used and how many draws it made. A source written
/// outside of verified code keeps their default and is taken at its word.
pub trait BeaverSource: Sized {
    /// The shares that the next call of `triple` hands out.
    open spec fn next_triple(&self) -> (nat, nat, nat) {
        arbitrary()
    }

    /// The source after a call of `triple`.
    open spec fn after_triple(&self) -> Self {
        arbitrary()
    }

    /// The shares that the next call of `inv_pair` hands out.
    open spec fn next_pair(&self) -> (nat, nat) {
        arbitrary()
    }

    /// The source after a call of `inv_pair`.
    open spec fn after_pair(&self) -> Self {
        arbitrary()
    }

    /// This party's shares of a fresh multiplication triple.
    fn triple(&mut self) -> (t: (AdditiveShare, AdditiveShare, AdditiveShare))
        ensures
            (t.0@, t.1@, t.2@) == old(self).next_triple(),
            *final(self) == old(self).after_triple(),
    ;

    /// This party's shares of a fresh inversion pair.
    fn inv_pair(&mut self) -> (p: (AdditiveShare, AdditiveShare))
        ensures
            (p.0@, p.1@) == old(self).next_pair(),
            *final(self) == old(self).after_pair(),
    ;
}

/// A source without randomness: every component is the public constant 1,
/// shared as 1 on the first party and 0 on the other. It makes the online
/// protocol compute the right values and hides nothing; it must be replaced
/// wherever privacy is wanted.
#[derive(Clone, Copy, Debug, PartialEq, Eq, Structural)]
pub struct DummyScalarTripleSource {
    am_first: bool,
}

impl DummyScalarTripleSource {
    /// The dummy source of the given party.
    pub fn new(am_first: bool) -> (s: DummyScalarTripleSource)
        ensures
            s.am_first() == am_first,
    {
        DummyScalarTripleSource { am_first }
    }

    /// Which party the source belongs to.
    pub closed spec fn am_first(&self) -> bool {
        self.am_first
    }

    /// This party's share of the constant 1.
    fn unit(&self) -> (s: AdditiveShare)
        ensures
            s@ == public_share(1, self.am_first()),
    {
        AdditiveShare::from_public(Fr::one(), self.am_first)
    }
}

/// The shares of the constant 1 that the dummy source of a party hands out.
pub open spec fn dummy_share(am_first: bool) -> nat {
    public_share(1, am_first)
}

impl BeaverSource for DummyScalarTripleSource {
    open spec fn next_triple(&self) -> (nat, nat, nat) {
        (dummy_share(self.am_first()), dummy_share(self.am_first()), dummy_share(self.am_first()))
    }

    open spec fn after_triple(&self) -> Self {
        *self
    }

    open spec fn next_pair(&self) -> (nat, nat) {
        (dummy_share(self.am_first()), dummy_share(self.am_first()))
    }

    open spec fn after_pair(&self) -> Self {
        *self
    }

    fn triple(&mut self) -> (t: (AdditiveShare, AdditiveShare, AdditiveShare)) {
        (self.unit(), self.unit(), self.unit())
    }

    fn inv_pair(&mut self) -> (p: (AdditiveShare, AdditiveShare)) {
        (self.unit(), self.unit())
    }
}

} // verus!
