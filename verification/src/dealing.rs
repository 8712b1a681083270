//! Dealing the shares of a squaring chain: the first party computes the
//! chain in the clear, masks every value with a random element, keeps the
//! masked values and sends the negated masks to the peer. It takes one
//! exchange, in which the peer sends zeros.

use crate::algebra::canonical;
use crate::algebra::f_add;
use crate::algebra::f_neg;
use crate::bytes::le_value;
use crate::bytes::lemma_le_bytes_len;
use crate::circuit::RepeatedSquaringCircuit;
use crate::circuit::square_chain;
use crate::error::MpcError;
use crate::field::Fr;
use crate::field::encoding;
use crate::protocol::lemma_decode_one;
use crate::wire::MpcField;
use crate::wire::Value;
use vstd::slice::slice_subrange;
use vstd::prelude::*;

verus! {

/// The values of a sequence of elements.
pub open spec fn values(v: Seq<Fr>) -> Seq<nat> {
    Seq::new(v.len(), |i: int| v[i]@)
}

/// The wire form of a sequence of elements: their encodings, one after the
/// other.
pub open spec fn encode_seq(s: Seq<nat>) -> Seq<u8> {
    Seq::new(32 * s.len(), |j: int| encoding(s[j / 32])[j % 32])
}

/// The number that the `i`-th block of 32 bytes stands for.
pub open spec fn element_at(bytes: Seq<u8>, i: int) -> nat {
    le_value(bytes.subrange(32 * i, 32 * i + 32))
}

/// A reply that holds `n` field elements.
pub open spec fn decode_seq(bytes: Seq<u8>, n: nat) -> Result<Seq<nat>, MpcError> {
    if bytes.len() != 32 * n {
        Err(MpcError::ChannelTransport)
    } else if forall|i: int| 0 <= i < n ==> canonical(#[trigger] element_at(bytes, i)) {
        Ok(Seq::new(n, |i: int| element_at(bytes, i)))
    } else {
        Err(MpcError::SerializationError)
    }
}

/// The `i`-th block of an encoded sequence is the encoding of its `i`-th
/// element.
pub proof fn lemma_encode_seq_block(s: Seq<nat>, i: int)
    requires
        0 <= i < s.len(),
    ensures
        encode_seq(s).subrange(32 * i, 32 * i + 32) == encoding(s[i]),
{
    lemma_le_bytes_len(s[i], 32);
    assert(encode_seq(s).subrange(32 * i, 32 * i + 32) =~= encoding(s[i]));
}

/// A sequence of elements that was sent arrives.
pub proof fn lemma_decode_seq(s: Seq<nat>)
    requires
        forall|i: int| 0 <= i < s.len() ==> canonical(#[trigger] s[i]),
    ensures
        decode_seq(encode_seq(s), s.len()) == Ok::<Seq<nat>, MpcError>(s),
{
    let bytes = encode_seq(s);
    assert forall|i: int| 0 <= i < s.len() implies #[trigger] element_at(bytes, i) == s[i] by {
        lemma_encode_seq_block(s, i);
        lemma_decode_one(s[i]);
    }
    assert(Seq::new(s.len(), |i: int| element_at(bytes, i)) =~= s);
}

/// The wire form of a vector of elements.
pub fn write_all(elems: &Vec<Fr>) -> (out: Vec<u8>)
    ensures
        out@ == encode_seq(values(elems@)),
{
    let mut out: Vec<u8> = Vec::new();
    let mut i: usize = 0;
    while i < elems.len()
        invariant
            i <= elems@.len(),
            out@ == encode_seq(values(elems@.take(i as int))),
        decreases elems@.len() - i,
    {
        let ghost before = out@;
        elems[i].write_to(&mut out);
        proof {
            let done = values(elems@.take(i as int));
            let next = values(elems@.take(i + 1));
            lemma_le_bytes_len(elems@[i as int]@, 32);
            assert(before + encoding(elems@[i as int]@) =~= encode_seq(next));
        }
        i = i + 1;
    }
    proof {
        assert(elems@.take(elems@.len() as int) =~= elems@);
    }
    out
}

/// Reads a reply that holds `n` field elements.
pub fn read_all(bytes: &[u8], n: usize) -> (r: Result<Vec<Fr>, MpcError>)
    ensures
        match r {
            Ok(v) => decode_seq(bytes@, n as nat) == Ok::<Seq<nat>, MpcError>(values(v@)),
            Err(e) => decode_seq(bytes@, n as nat) == Err::<Seq<nat>, MpcError>(e),
        },
{
    if bytes.len() % 32 != 0 || bytes.len() / 32 != n {
        return Err(MpcError::ChannelTransport);
    }
    let mut v: Vec<Fr> = Vec::new();
    let mut i: usize = 0;
    while i < n
        invariant
            i <= n,
            bytes@.len() == 32 * n,
            32 * n <= usize::MAX,
            v@.len() == i,
            forall|j: int| 0 <= j < i ==> canonical(#[trigger] element_at(bytes@, j)),
            forall|j: int| 0 <= j < i ==> v@[j]@ == element_at(bytes@, j),
        decreases n - i,
    {
        match Fr::read_from(slice_subrange(bytes, 32 * i, 32 * i + 32)) {
            Some(x) => {
                v.push(x);
            },
            None => {
                assert(!canonical(element_at(bytes@, i as int)));
                return Err(MpcError::SerializationError);
            },
        }
        i = i + 1;
    }
    proof {
        assert(values(v@) =~= Seq::new(n as nat, |i: int| element_at(bytes@, i)));
    }
    Ok(v)
}

/// Model of [`ShareDeal`].
pub struct DealView {
    /// The elements to send.
    pub outgoing: Seq<nat>,
    /// This party's shares, if it dealt them itself.
    pub mine: Option<Seq<nat>>,
}

/// What a party does to deal the chain that starts from `start`: the first
/// party keeps each value plus its mask and sends the negated masks; the
/// other sends zeros and waits for its shares.
pub open spec fn deal(start: nat, masks: Seq<nat>, am_first: bool) -> DealView {
    if am_first {
        DealView {
            outgoing: Seq::new(masks.len(), |i: int| f_neg(masks[i])),
            mine: Some(
                Seq::new(masks.len(), |i: int| f_add(square_chain(start, i as nat), masks[i])),
            ),
        }
    } else {
        DealView { outgoing: Seq::new(masks.len(), |i: int| 0nat), mine: None }
    }
}

/// The shares a party ends up with: its own if it dealt, else what the
/// peer sent.
pub open spec fn dealt(d: DealView, reply: Seq<u8>) -> Result<Seq<nat>, MpcError> {
    match decode_seq(reply, d.outgoing.len()) {
        Ok(peer) => match d.mine {
            Some(mine) => Ok(mine),
            None => Ok(peer),
        },
        Err(e) => Err(e),
    }
}

/// A party between sending its part of a deal and receiving the peer's.
#[derive(Debug)]
pub struct ShareDeal {
    outgoing: Vec<Fr>,
    mine: Option<Vec<Fr>>,
}

impl View for ShareDeal {
    type V = DealView;

    closed spec fn view(&self) -> DealView {
        DealView {
            outgoing: values(self.outgoing@),
            mine: match self.mine {
                Some(m) => Some(values(m@)),
                None => None,
            },
        }
    }
}

/// Begins the deal of the chain of `squarings` squarings that starts from
/// `start`, with one mask for each of its values.
pub fn mpc_squaring_circuit(start: Fr, squarings: usize, masks: &Vec<Fr>, am_first: bool) -> (d:
    ShareDeal)
    requires
        masks@.len() == squarings + 1,
    ensures
        d@ == deal(start@, values(masks@), am_first),
{
    let mut outgoing: Vec<Fr> = Vec::new();
    let mut first: Vec<Fr> = Vec::new();
    let mut value: Fr = start;
    let mut i: usize = 0;
    while i < masks.len()
        invariant
            i <= masks@.len(),
            outgoing@.len() == i,
            first@.len() == i,
            value@ == square_chain(start@, i as nat),
            forall|j: int|
                0 <= j < i ==> outgoing@[j]@ == (if am_first {
                    f_neg(masks@[j]@)
                } else {
                    0nat
                }),
            forall|j: int|
                0 <= j < i ==> first@[j]@ == f_add(square_chain(start@, j as nat), masks@[j]@),
        decreases masks@.len() - i,
    {
        first.push(value.add(&masks[i]));
        if am_first {
            outgoing.push(masks[i].neg());
        } else {
            outgoing.push(Fr::zero());
        }
        value = value.mul(&value);
        i = i + 1;
    }
    let d = if am_first {
        ShareDeal { outgoing, mine: Some(first) }
    } else {
        ShareDeal { outgoing, mine: None }
    };
    proof {
        let m = values(masks@);
        assert(d@.outgoing =~= deal(start@, m, am_first).outgoing);
        if am_first {
            assert(d@.mine->Some_0 =~= deal(start@, m, am_first).mine->Some_0);
        }
    }
    d
}

impl ShareDeal {
    /// The bytes to send to the peer.
    pub fn payload(&self) -> (out: Vec<u8>)
        ensures
            out@ == encode_seq(self@.outgoing),
    {
        write_all(&self.outgoing)
    }

    /// Takes the peer's part of the deal and builds the circuit over this
    /// party's shares.
    pub fn finish(self, reply: &[u8]) -> (r: Result<RepeatedSquaringCircuit<MpcField>, MpcError>)
        ensures
            match r {
                Ok(c) => match dealt(self@, reply@) {
                    Ok(shares) => {
                        &&& c@.len() == shares.len()
                        &&& forall|i: int|
                            0 <= i < shares.len() ==> (#[trigger] c@[i] matches Some(v) && v@
                                == Value::Shared(shares[i]))
                    },
                    Err(_) => false,
                },
                Err(e) => dealt(self@, reply@) == Err::<Seq<nat>, MpcError>(e),
            },
    {
        let peer = read_all(reply, self.outgoing.len())?;
        let shares = match self.mine {
            Some(m) => m,
            None => peer,
        };
        let mut chain: Vec<MpcField> = Vec::new();
        let mut i: usize = 0;
        while i < shares.len()
            invariant
                i <= shares@.len(),
                chain@.len() == i,
                forall|j: int| 0 <= j < i ==> chain@[j]@ == Value::Shared(shares@[j]@),
            decreases shares@.len() - i,
        {
            chain.push(MpcField::from_add_shared(shares[i]));
            i = i + 1;
        }
        Ok(RepeatedSquaringCircuit::from_chain(chain))
    }
}

} // verus!
