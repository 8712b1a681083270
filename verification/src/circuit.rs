//! The repeated-squaring circuit: a chain of values in which each is the
//! square of the one before. The values but the last are the witness; the
//! last is the public input.

use crate::algebra::f_mul;
use crate::error::MpcError;
use crate::field::Fr;
use vstd::prelude::*;

verus! {

/// The value at position `i` of the chain that starts from `f`.
pub open spec fn square_chain(f: nat, i: nat) -> nat
    decreases i,
{
    if i == 0 {
        f
    } else {
        f_mul(square_chain(f, (i - 1) as nat), square_chain(f, (i - 1) as nat))
    }
}

/// Whether `c` is the chain of `n` squarings that starts from `start`, with
/// all its values.
pub open spec fn is_chain_from(c: Seq<Option<Fr>>, start: nat, n: nat) -> bool {
    &&& c.len() == n + 1
    &&& forall|i: int|
        0 <= i <= n ==> (#[trigger] c[i] matches Some(v) && v@ == square_chain(start, i as nat))
}

/// Whether the value at position `i` is there and, unless it is the first,
/// is the square of the value before it, which is there too.
pub open spec fn holds_at(chain: Seq<Option<Fr>>, i: int) -> bool {
    match chain[i] {
        Some(v) => i == 0 || (match chain[i - 1] {
            Some(u) => v@ == f_mul(u@, u@),
            None => false,
        }),
        None => false,
    }
}

/// The constraint that the variable `square` is the variable `root` times
/// itself. Variables are numbered by their position in the chain.
#[derive(Clone, Copy, Debug, PartialEq, Eq, Structural)]
pub struct SquareConstraint {
    pub root: usize,
    pub square: usize,
}

/// A chain of squarings whose values may be absent: without them the
/// circuit still has its shape, which is all that key generation needs.
#[derive(Debug)]
pub struct RepeatedSquaringCircuit<F> {
    chain: Vec<Option<F>>,
}

impl<F> View for RepeatedSquaringCircuit<F> {
    type V = Seq<Option<F>>;

    closed spec fn view(&self) -> Seq<Option<F>> {
        self.chain@
    }
}

impl<F: Copy> RepeatedSquaringCircuit<F> {
    /// The circuit of the given number of squarings, without values.
    pub fn without_data(squarings: usize) -> (c: Self)
        ensures
            c@.len() == squarings + 1,
            forall|i: int| 0 <= i <= squarings ==> c@[i] is None,
    {
        let mut chain: Vec<Option<F>> = Vec::new();
        chain.push(None);
        let mut i: usize = 0;
        while i < squarings
            invariant
                i <= squarings,
                chain@.len() == i + 1,
                forall|j: int| 0 <= j <= i ==> chain@[j] is None,
            decreases squarings - i,
        {
            chain.push(None);
            i = i + 1;
        }
        RepeatedSquaringCircuit { chain }
    }

    /// The circuit whose values are the given ones, in order.
    pub fn from_chain(f: Vec<F>) -> (c: Self)
        ensures
            c@.len() == f@.len(),
            forall|i: int| 0 <= i < f@.len() ==> c@[i] == Some(f@[i]),
    {
        let mut chain: Vec<Option<F>> = Vec::new();
        let mut i: usize = 0;
        while i < f.len()
            invariant
                i <= f@.len(),
                chain@.len() == i,
                forall|j: int| 0 <= j < i ==> chain@[j] == Some(f@[j]),
            decreases f@.len() - i,
        {
            chain.push(Some(f[i]));
            i = i + 1;
        }
        RepeatedSquaringCircuit { chain }
    }

    /// The number of squarings: one less than the number of values.
    pub fn squarings(&self) -> (n: usize)
        requires
            self@.len() > 0,
        ensures
            n == self@.len() - 1,
    {
        self.chain.len() - 1
    }

    /// The number of values in the chain.
    pub fn len(&self) -> (n: usize)
        ensures
            n == self@.len(),
    {
        self.chain.len()
    }

    /// The value at position `i`, if the circuit has it.
    pub fn value(&self, i: usize) -> (v: Option<F>)
        requires
            i < self@.len(),
        ensures
            v == self@[i as int],
    {
        self.chain[i]
    }

    /// The constraints of the circuit: each value but the first is the
    /// square of the one before.
    pub fn constraints(&self) -> (cs: Vec<SquareConstraint>)
        ensures
            cs@.len() == (if self@.len() == 0 {
                0
            } else {
                self@.len() - 1
            }),
            forall|i: int|
                0 <= i < cs@.len() ==> cs@[i] == (SquareConstraint {
                    root: i as usize,
                    square: (i + 1) as usize,
                }),
    {
        let mut cs: Vec<SquareConstraint> = Vec::new();
        let n: usize = if self.chain.len() == 0 {
            0
        } else {
            self.chain.len() - 1
        };
        let mut i: usize = 0;
        while i < n
            invariant
                i <= n < usize::MAX,
                cs@.len() == i,
                forall|j: int|
                    0 <= j < i ==> cs@[j] == (SquareConstraint {
                        root: j as usize,
                        square: (j + 1) as usize,
                    }),
            decreases n - i,
        {
            cs.push(SquareConstraint { root: i, square: i + 1 });
            i = i + 1;
        }
        cs
    }

    /// The witness: the values but the last. A value that is absent fails
    /// the assignment.
    pub fn witness(&self) -> (r: Result<Vec<F>, MpcError>)
        requires
            self@.len() > 0,
        ensures
            match r {
                Ok(w) => {
                    &&& w@.len() == self@.len() - 1
                    &&& forall|i: int| 0 <= i < w@.len() ==> self@[i] == Some(w@[i])
                },
                Err(e) => {
                    &&& e == MpcError::AssignmentMissing
                    &&& exists|i: int| 0 <= i < self@.len() - 1 && self@[i] is None
                },
            },
    {
        let mut w: Vec<F> = Vec::new();
        let n: usize = self.chain.len() - 1;
        let mut i: usize = 0;
        while i < n
            invariant
                i <= n,
                n == self.chain@.len() - 1,
                w@.len() == i,
                forall|j: int| 0 <= j < i ==> self.chain@[j] == Some(w@[j]),
            decreases n - i,
        {
            match self.chain[i] {
                Some(v) => {
                    w.push(v);
                },
                None => {
                    assert(self@[i as int] is None);
                    return Err(MpcError::AssignmentMissing);
                },
            }
            i = i + 1;
        }
        Ok(w)
    }

    /// The public input: the last value. If it is absent the assignment
    /// fails.
    pub fn public_input(&self) -> (r: Result<F, MpcError>)
        requires
            self@.len() > 0,
        ensures
            match r {
                Ok(v) => self@.last() == Some(v),
                Err(e) => e == MpcError::AssignmentMissing && self@.last() is None,
            },
    {
        match self.chain[self.chain.len() - 1] {
            Some(v) => Ok(v),
            None => Err(MpcError::AssignmentMissing),
        }
    }
}

impl RepeatedSquaringCircuit<Fr> {
    /// The circuit with all its values, computed from the first by
    /// squaring.
    pub fn from_start(f: Fr, squarings: usize) -> (c: Self)
        ensures
            is_chain_from(c@, f@, squarings as nat),
    {
        let mut chain: Vec<Option<Fr>> = Vec::new();
        chain.push(Some(f));
        let mut last: Fr = f;
        let mut i: usize = 0;
        while i < squarings
            invariant
                i <= squarings,
                chain@.len() == i + 1,
                last@ == square_chain(f@, i as nat),
                forall|j: int|
                    0 <= j <= i ==> (#[trigger] chain@[j] matches Some(v) && v@ == square_chain(
                        f@,
                        j as nat,
                    )),
            decreases squarings - i,
        {
            last = last.mul(&last);
            chain.push(Some(last));
            i = i + 1;
        }
        RepeatedSquaringCircuit { chain }
    }

    /// Whether the values are all there and satisfy every constraint.
    pub fn is_satisfied(&self) -> (b: bool)
        ensures
            b == (forall|i: int| 0 <= i < self@.len() ==> holds_at(self@, i)),
    {
        let mut i: usize = 0;
        while i < self.chain.len()
            invariant
                i <= self.chain@.len(),
                forall|j: int| 0 <= j < i ==> holds_at(self.chain@, j),
            decreases self.chain@.len() - i,
        {
            match self.chain[i] {
                None => {
                    assert(!holds_at(self@, i as int));
                    return false;
                },
                Some(v) => {
                    if i > 0 {
                        match self.chain[i - 1] {
                            None => {
                                assert(!holds_at(self@, i as int));
                                return false;
                            },
                            Some(u) => {
                                if !u.mul(&u).same(&v) {
                                    assert(!holds_at(self@, i as int));
                                    return false;
                                }
                            },
                        }
                    }
                },
            }
            i = i + 1;
        }
        true
    }
}

} // verus!
