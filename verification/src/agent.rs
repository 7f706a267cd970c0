//! The participants of a trace.

use crate::put::Put;
use crate::text::{hex_encode, hex_of};
use crate::stream::MemoryStream;
use vstd::prelude::*;

verus! {

/// The identity of a participant.
#[derive(Clone, Copy, Debug, PartialEq, Eq, Structural)]
pub struct AgentName(pub u128);

/// The first `k` bytes of a number, the low byte first.
pub open spec fn low_bytes_first(n: nat, k: nat) -> Seq<u8>
    decreases k,
{
    if k == 0 {
        Seq::empty()
    } else {
        seq![(n % 256) as u8] + low_bytes_first(n / 256, (k - 1) as nat)
    }
}

/// The sixteen bytes of a number in the byte order of the machine, by
/// `u128::to_ne_bytes`: the low byte first or the high byte first.
#[verifier::external_body]
fn native_bytes(n: u128) -> (bytes: Vec<u8>)
    ensures
        bytes@ == low_bytes_first(n as nat, 16) || bytes@ == low_bytes_first(
            n as nat,
            16,
        ).reverse(),
{
    n.to_ne_bytes().to_vec()
}

impl AgentName {
    /// The name as text: the bytes of its number in hexadecimal, in the byte
    /// order of the machine.
    pub fn to_string(&self) -> (text: String)
        ensures
            text@ == hex_of(low_bytes_first(self.0 as nat, 16)) || text@ == hex_of(
                low_bytes_first(self.0 as nat, 16).reverse(),
            ),
    {
        hex_encode(&native_bytes(self.0))
    }
}

/// The name of no participant.
pub fn no_agent() -> (name: AgentName)
    ensures
        name == AgentName(0),
{
    AgentName(0)
}

/// The protocol version that a participant speaks.
#[derive(Clone, Copy, Debug, PartialEq, Eq, Structural)]
pub enum TLSVersion {
    V1_3,
    V1_2,
}

/// The static configuration of one participant: who it is, which protocol
/// version it speaks, and whether it is the server.
#[derive(Clone, Copy, Debug, PartialEq, Eq, Structural)]
pub struct AgentDescriptor {
    pub name: AgentName,
    pub tls_version: TLSVersion,
    pub server: bool,
}

/// A participant of a run: its name, the bytes that went over its
/// connection, and the program under test that plays it.
pub struct Agent<P: Put> {
    pub name: AgentName,
    pub stream: MemoryStream,
    pub put: P,
}

/// The mathematical model of an [`Agent`]: all of it but the program under
/// test, whose state the engine cannot see.
pub struct AgentView {
    pub name: AgentName,
    pub incoming: Seq<u8>,
    pub outgoing: Seq<u8>,
}

impl<P: Put> View for Agent<P> {
    type V = AgentView;

    open spec fn view(&self) -> AgentView {
        AgentView {
            name: self.name,
            incoming: self.stream.incoming@,
            outgoing: self.stream.outgoing@,
        }
    }
}

/// A number drawn at random, by `rand::random`. Nothing is known of it.
#[verifier::external_body]
fn random_number() -> (n: u128) {
    rand::random::<u128>()
}

impl<P: Put> Agent<P> {
    /// An agent with a name drawn at random and a stream that has carried
    /// nothing.
    pub fn new(put: P) -> (agent: Agent<P>)
        ensures
            agent.put == put,
            agent@.incoming == Seq::<u8>::empty(),
            agent@.outgoing == Seq::<u8>::empty(),
    {
        Self::from_stream(MemoryStream::new(), put)
    }

    /// An agent with a name drawn at random and the given stream.
    pub fn from_stream(stream: MemoryStream, put: P) -> (agent: Agent<P>)
        ensures
            agent.stream == stream,
            agent.put == put,
    {
        Agent { name: AgentName(random_number()), stream, put }
    }

    /// An agent with the given name and a stream that has carried nothing.
    pub fn named(name: AgentName, put: P) -> (agent: Agent<P>)
        ensures
            agent.name == name,
            agent.put == put,
            agent@.incoming == Seq::<u8>::empty(),
            agent@.outgoing == Seq::<u8>::empty(),
    {
        Agent { name, stream: MemoryStream::new(), put }
    }
}

} // verus!
