//! The bookkeeping of the two-party channel.
//!
//! The connection itself belongs to the caller. This module decides what
//! goes over it and what is accepted from it: an exchange is one frame out
//! and one frame of the same size in, strictly in turn, and the counters
//! move only here.
//!
//! A frame is the length of the payload as eight little-endian bytes,
//! followed by the payload.

use crate::bytes::le_bytes;
use crate::bytes::le_value;
use crate::bytes::lemma_le_bytes_len;
use crate::bytes::lemma_le_value_of_bytes;
use crate::bytes::lemma_pow256_values;
use crate::bytes::u64_from_le;
use crate::bytes::u64_to_le;
use crate::error::MpcError;
use crate::field::Fr;
use crate::protocol::Pending;
use crate::protocol::PendingView;
use crate::protocol::Step;
use crate::protocol::outcome_view;
use crate::protocol::payload;
use crate::protocol::resume;
use vstd::slice::slice_subrange;
use vstd::slice::slice_to_vec;
use vstd::prelude::*;

verus! {

/// The number of bytes of the length prefix.
pub const HEADER_BYTES: usize = 8;

/// Whether a value that was made public is compared with the peer's, where
/// the caller has no reason to decide otherwise. The comparison costs a
/// round; without it a divergence of the two parties goes unnoticed.
pub const CHECK_BY_DEFAULT: bool = true;

/// The frame that carries `payload`.
pub open spec fn frame(payload: Seq<u8>) -> Seq<u8> {
    le_bytes(payload.len(), 8) + payload
}

/// The payload that `bytes` carries, if `bytes` is a frame.
pub open spec fn unframe(bytes: Seq<u8>) -> Option<Seq<u8>> {
    if bytes.len() >= 8 && le_value(bytes.subrange(0, 8)) == bytes.len() - 8 {
        Some(bytes.subrange(8, bytes.len() as int))
    } else {
        None
    }
}

/// A sum that stops at the largest 64-bit number.
pub open spec fn capped(a: nat, b: nat) -> nat {
    if a + b > u64::MAX {
        u64::MAX as nat
    } else {
        a + b
    }
}

/// Counters of the traffic of one party. Each stops at the largest 64-bit
/// number.
#[derive(Clone, Copy, Debug, PartialEq, Eq, Structural)]
pub struct Stats {
    /// Payload bytes sent.
    pub bytes_sent: u64,
    /// Payload bytes received.
    pub bytes_recv: u64,
    /// Exchanges completed.
    pub exchanges: u64,
}

/// One party's end of the channel: who it is, what it has counted, and
/// whether it has sent a frame that the peer has not answered yet.
#[derive(Clone, Copy, Debug)]
pub struct Channel {
    am_first: bool,
    stats: Stats,
    awaiting: Option<u64>,
}

/// Model of [`Channel`].
pub struct ChannelView {
    pub am_first: bool,
    pub stats: Stats,
    /// The payload size of the frame that is out, if one is.
    pub awaiting: Option<nat>,
}

impl View for Channel {
    type V = ChannelView;

    closed spec fn view(&self) -> ChannelView {
        ChannelView {
            am_first: self.am_first,
            stats: self.stats,
            awaiting: match self.awaiting {
                Some(n) => Some(n as nat),
                None => None,
            },
        }
    }
}

/// The channel after the frame of a payload of `n` bytes went out.
pub open spec fn after_send(c: ChannelView, n: nat) -> ChannelView {
    ChannelView {
        am_first: c.am_first,
        stats: Stats {
            bytes_sent: capped(c.stats.bytes_sent as nat, n) as u64,
            bytes_recv: c.stats.bytes_recv,
            exchanges: c.stats.exchanges,
        },
        awaiting: Some(n),
    }
}

/// Whether the channel accepts `bytes` as the peer's frame: a frame is out,
/// and `bytes` is a frame of the same payload size.
pub open spec fn accepts(c: ChannelView, bytes: Seq<u8>) -> bool {
    match (c.awaiting, unframe(bytes)) {
        (Some(n), Some(body)) => body.len() == n,
        _ => false,
    }
}

/// The channel after it accepted the peer's frame of a payload of `n`
/// bytes.
pub open spec fn after_receive(c: ChannelView, n: nat) -> ChannelView {
    ChannelView {
        am_first: c.am_first,
        stats: Stats {
            bytes_sent: c.stats.bytes_sent,
            bytes_recv: capped(c.stats.bytes_recv as nat, n) as u64,
            exchanges: capped(c.stats.exchanges as nat, 1) as u64,
        },
        awaiting: None,
    }
}

/// A frame, unframed, is the payload that went in.
pub proof fn law_frame_round_trip(payload: Seq<u8>)
    requires
        payload.len() <= u64::MAX,
    ensures
        unframe(frame(payload)) == Some(payload),
{
    let f = frame(payload);
    lemma_le_bytes_len(payload.len(), 8);
    lemma_pow256_values();
    lemma_le_value_of_bytes(payload.len(), 8);
    assert(f.subrange(0, 8) =~= le_bytes(payload.len(), 8));
    assert(f.subrange(8, f.len() as int) =~= payload);
}

/// The capped sum of a counter and a length.
fn add_capped(a: u64, b: usize) -> (r: u64)
    ensures
        r as nat == capped(a as nat, b as nat),
{
    let b64: u64 = b as u64;
    if a > u64::MAX - b64 {
        u64::MAX
    } else {
        a + b64
    }
}

impl Channel {
    /// The end of a fresh channel for the given party: nothing counted,
    /// nothing out.
    pub fn init(am_first: bool) -> (c: Channel)
        ensures
            c@ == (ChannelView {
                am_first,
                stats: Stats { bytes_sent: 0, bytes_recv: 0, exchanges: 0 },
                awaiting: None,
            }),
    {
        Channel {
            am_first,
            stats: Stats { bytes_sent: 0, bytes_recv: 0, exchanges: 0 },
            awaiting: None,
        }
    }

    /// Whether this is the first party.
    pub fn am_first(&self) -> (b: bool)
        ensures
            b == self@.am_first,
    {
        self.am_first
    }

    /// The counters so far.
    pub fn stats(&self) -> (s: Stats)
        ensures
            s == self@.stats,
    {
        self.stats
    }

    /// Sets the counters back to 0.
    pub fn reset_stats(&mut self)
        ensures
            final(self)@ == (ChannelView {
                am_first: old(self)@.am_first,
                stats: Stats { bytes_sent: 0, bytes_recv: 0, exchanges: 0 },
                awaiting: old(self)@.awaiting,
            }),
    {
        self.stats = Stats { bytes_sent: 0, bytes_recv: 0, exchanges: 0 };
    }

    /// Gives the channel up and hands out its counters.
    pub fn deinit(self) -> (s: Stats)
        ensures
            s == self@.stats,
    {
        self.stats
    }

    /// The first half of an exchange: the frame to send for `payload`. The
    /// payload is counted as sent and its size is remembered for the reply.
    pub fn send(&mut self, payload: &[u8]) -> (out: Vec<u8>)
        ensures
            out@ == frame(payload@),
            final(self)@ == after_send(old(self)@, payload@.len()),
    {
        let n: usize = payload.len();
        let mut out = u64_to_le(n as u64);
        let mut body = slice_to_vec(payload);
        out.append(&mut body);
        self.stats.bytes_sent = add_capped(self.stats.bytes_sent, n);
        self.awaiting = Some(n as u64);
        out
    }

    /// The payload size that a length prefix announces, for the reader of
    /// the connection to know how many bytes follow.
    pub fn announced(header: &[u8]) -> (n: Option<u64>)
        ensures
            match n {
                Some(n) => header@.len() == 8 && n as nat == le_value(header@),
                None => header@.len() != 8,
            },
    {
        if header.len() != HEADER_BYTES {
            None
        } else {
            Some(u64_from_le(header))
        }
    }

    /// The second half of an exchange: takes the peer's frame and hands out
    /// its payload. The frame is refused as a transport failure, and
    /// nothing changes, unless a frame of this party is out and the peer's
    /// is a whole frame whose payload has the same size.
    pub fn receive(&mut self, bytes: &[u8]) -> (r: Result<Vec<u8>, MpcError>)
        ensures
            match r {
                Ok(body) => accepts(old(self)@, bytes@) && Some(body@) == unframe(bytes@)
                    && final(self)@ == after_receive(old(self)@, body@.len()),
                Err(e) => !accepts(old(self)@, bytes@) && e == MpcError::ChannelTransport
                    && final(self)@ == old(self)@,
            },
    {
        let expected: u64 = match self.awaiting {
            Some(n) => n,
            None => {
                return Err(MpcError::ChannelTransport);
            },
        };
        if bytes.len() < HEADER_BYTES {
            return Err(MpcError::ChannelTransport);
        }
        let announced: u64 = u64_from_le(slice_subrange(bytes, 0, 8));
        let n: usize = bytes.len() - HEADER_BYTES;
        if announced != n as u64 || announced != expected {
            return Err(MpcError::ChannelTransport);
        }
        let body = slice_to_vec(slice_subrange(bytes, 8, bytes.len()));
        self.stats.bytes_recv = add_capped(self.stats.bytes_recv, n);
        self.stats.exchanges = add_capped(self.stats.exchanges, 1);
        self.awaiting = None;
        Ok(body)
    }

    /// The comparison of a public value with the peer's, as a round to
    /// take: it ends the run as desynchronized if the two differ.
    pub fn check_eq(value: Fr) -> (p: Pending)
        ensures
            p@ == (PendingView::Check { value: value@ }),
    {
        Pending::Check { value }
    }

    /// The frame to send in the round that `pending` waits in.
    pub fn outgoing(&mut self, pending: &Pending) -> (out: Vec<u8>)
        ensures
            out@ == frame(payload(pending@)),
            final(self)@ == after_send(old(self)@, payload(pending@).len()),
    {
        let body = pending.payload();
        self.send(body.as_slice())
    }

    /// Takes the peer's frame of the round that `pending` waits in and
    /// resumes the state with its payload.
    pub fn incoming(&mut self, pending: Pending, bytes: &[u8]) -> (r: Result<Step, MpcError>)
        ensures
            match unframe(bytes@) {
                Some(body) if accepts(old(self)@, bytes@) => {
                    &&& outcome_view(r) == resume(pending@, body, old(self)@.am_first)
                    &&& final(self)@ == after_receive(old(self)@, body.len())
                },
                _ => r == Err::<Step, MpcError>(MpcError::ChannelTransport) && final(self)@ == old(
                    self,
                )@,
            },
    {
        let body = self.receive(bytes)?;
        pending.resume(body.as_slice(), self.am_first)
    }
}

} // verus!
