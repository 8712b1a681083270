//! What the command-line driver decides: which party this is, which
//! address to use, and which procedure a choice of field configuration and
//! proof system stands for. The driver itself resolves names, connects and
//! proves; none of that is here.

use crate::channel::Channel;
use crate::channel::ChannelView;
use crate::channel::Stats;
use vstd::pervasive::unreached;
use vstd::prelude::*;

verus! {

/// Where this party listens, where the peer does, and which of the two
/// this party is.
#[derive(Debug)]
pub struct PartyInfo {
    /// The host of this party.
    pub host: String,
    /// The port of this party.
    pub port: u16,
    /// The host of the peer.
    pub peer_host: String,
    /// The port of the peer.
    pub peer_port: u16,
    /// 0 for the first party; any other number is the second.
    pub party: u8,
}

/// The computation to prove.
#[derive(Clone, Copy, Debug, PartialEq, Eq, Structural)]
pub enum Computation {
    /// A chain of squarings.
    Squaring,
}

/// The proof system to prove it with.
#[derive(Clone, Copy, Debug, PartialEq, Eq, Structural)]
pub enum ProofSystem {
    Groth16,
    Marlin,
}

/// Over which field the prover runs.
#[derive(Debug)]
pub enum FieldOpt {
    /// The lifted field, between two parties.
    Mpc { party_info: PartyInfo },
    /// The plain field, with the prover of this project.
    Local,
    /// The plain field, with the prover of the proof system's own crate.
    ArkLocal,
}

/// One of the procedures that the driver can run.
#[derive(Clone, Copy, Debug, PartialEq, Eq, Structural)]
pub enum Procedure {
    GrothMpc,
    MarlinMpc,
    GrothLocal,
    MarlinLocal,
    GrothLocalArk,
}

/// What a run consists of: the channel to bring up first and to tear down
/// last, if the run is between two parties; the procedure; and its size.
#[derive(Debug)]
pub struct Plan {
    pub channel: Option<Channel>,
    pub procedure: Procedure,
    pub computation_size: usize,
}

/// The procedure that a field configuration and a proof system stand for.
/// Marlin has no prover of its own crate in this driver.
pub open spec fn procedure_for(mpc: bool, ark: bool, proof_system: ProofSystem) -> Option<
    Procedure,
> {
    match proof_system {
        ProofSystem::Groth16 => if mpc {
            Some(Procedure::GrothMpc)
        } else if ark {
            Some(Procedure::GrothLocalArk)
        } else {
            Some(Procedure::GrothLocal)
        },
        ProofSystem::Marlin => if mpc {
            Some(Procedure::MarlinMpc)
        } else if ark {
            None
        } else {
            Some(Procedure::MarlinLocal)
        },
    }
}

/// The channel of a party before any exchange.
pub open spec fn fresh_channel(am_first: bool) -> ChannelView {
    ChannelView {
        am_first,
        stats: Stats { bytes_sent: 0, bytes_recv: 0, exchanges: 0 },
        awaiting: None,
    }
}

impl PartyInfo {
    /// Which of the addresses that a name resolved to is used: the first
    /// that is an IPv4 address. `is_ipv4` says of each address, in the
    /// order of resolution, whether it is one.
    pub fn pick_address(is_ipv4: &[bool]) -> (r: Option<usize>)
        ensures
            match r {
                Some(i) => i < is_ipv4@.len() && is_ipv4@[i as int] && forall|j: int|
                    0 <= j < i ==> !is_ipv4@[j],
                None => forall|j: int| 0 <= j < is_ipv4@.len() ==> !is_ipv4@[j],
            },
    {
        let mut i: usize = 0;
        while i < is_ipv4.len()
            invariant
                i <= is_ipv4@.len(),
                forall|j: int| 0 <= j < i ==> !is_ipv4@[j],
            decreases is_ipv4@.len() - i,
        {
            if is_ipv4[i] {
                return Some(i);
            }
            i = i + 1;
        }
        None
    }

    /// This party's end of the channel, before any exchange. The party
    /// numbered 0 is the first: it binds and accepts, the other connects.
    pub fn setup(&self) -> (c: Channel)
        ensures
            c@ == fresh_channel(self.party == 0),
    {
        Channel::init(self.party == 0)
    }

    /// Gives the channel up and hands out the counters to report.
    pub fn teardown(&self, channel: Channel) -> (s: Stats)
        ensures
            s == channel@.stats,
    {
        channel.deinit()
    }
}

impl FieldOpt {
    /// The channel that the configuration needs: one for a run between two
    /// parties, none for a local run.
    pub fn setup(&self) -> (c: Option<Channel>)
        ensures
            match *self {
                FieldOpt::Mpc { party_info } => c matches Some(ch) && ch@ == fresh_channel(
                    party_info.party == 0,
                ),
                _ => c is None,
            },
    {
        match self {
            FieldOpt::Mpc { party_info } => Some(party_info.setup()),
            _ => None,
        }
    }

    /// Gives up the channel of the run, if it had one, and hands out the
    /// counters to report.
    pub fn teardown(&self, channel: Option<Channel>) -> (s: Option<Stats>)
        ensures
            match (*self, channel) {
                (FieldOpt::Mpc { .. }, Some(ch)) => s == Some(ch@.stats),
                _ => s is None,
            },
    {
        match (self, channel) {
            (FieldOpt::Mpc { party_info }, Some(ch)) => Some(party_info.teardown(ch)),
            _ => None,
        }
    }

    /// The procedure that this configuration and the proof system stand
    /// for, if there is one.
    pub fn procedure(&self, proof_system: ProofSystem) -> (r: Option<Procedure>)
        ensures
            r == procedure_for(*self is Mpc, *self is ArkLocal, proof_system),
    {
        match (self, proof_system) {
            (FieldOpt::Mpc { .. }, ProofSystem::Groth16) => Some(Procedure::GrothMpc),
            (FieldOpt::Mpc { .. }, ProofSystem::Marlin) => Some(Procedure::MarlinMpc),
            (FieldOpt::Local, ProofSystem::Groth16) => Some(Procedure::GrothLocal),
            (FieldOpt::Local, ProofSystem::Marlin) => Some(Procedure::MarlinLocal),
            (FieldOpt::ArkLocal, ProofSystem::Groth16) => Some(Procedure::GrothLocalArk),
            (FieldOpt::ArkLocal, ProofSystem::Marlin) => None,
        }
    }

    /// The plan of a run, for a combination that has a procedure.
    pub fn run(
        &self,
        computation: Computation,
        proof_system: ProofSystem,
        computation_size: usize,
    ) -> (plan: Plan)
        requires
            procedure_for(*self is Mpc, *self is ArkLocal, proof_system) is Some,
        ensures
            Some(plan.procedure) == procedure_for(*self is Mpc, *self is ArkLocal, proof_system),
            plan.computation_size == computation_size,
            match *self {
                FieldOpt::Mpc { party_info } => plan.channel matches Some(ch) && ch@
                    == fresh_channel(party_info.party == 0),
                _ => plan.channel is None,
            },
    {
        let procedure = match computation {
            Computation::Squaring => match self.procedure(proof_system) {
                Some(procedure) => procedure,
                None => unreached(),
            },
        };
        Plan { channel: self.setup(), procedure, computation_size }
    }
}

} // verus!
