//! The byte streams of an agent, held in memory.

use crate::knowledge::append_bytes;
use vstd::prelude::*;

verus! {

/// The two directions of an agent's connection: the bytes that were
/// delivered to it, and the bytes that it has sent.
pub struct MemoryStream {
    pub incoming: Vec<u8>,
    pub outgoing: Vec<u8>,
}

impl MemoryStream {
    /// A stream that has carried nothing.
    pub fn new() -> (stream: MemoryStream)
        ensures
            stream.incoming@ == Seq::<u8>::empty(),
            stream.outgoing@ == Seq::<u8>::empty(),
    {
        MemoryStream { incoming: Vec::new(), outgoing: Vec::new() }
    }

    /// Appends `data` to what was delivered to the agent.
    pub fn extend_incoming(&mut self, data: &Vec<u8>)
        ensures
            final(self).incoming@ == old(self).incoming@ + data@,
            final(self).outgoing@ == old(self).outgoing@,
    {
        append_bytes(&mut self.incoming, data);
    }

    /// Appends `data` to what the agent has sent.
    pub fn extend_outgoing(&mut self, data: &Vec<u8>)
        ensures
            final(self).outgoing@ == old(self).outgoing@ + data@,
            final(self).incoming@ == old(self).incoming@,
    {
        append_bytes(&mut self.outgoing, data);
    }

    /// Takes what the agent has sent out of the stream.
    pub fn take_outgoing(&mut self) -> (data: Vec<u8>)
        ensures
            data@ == old(self).outgoing@,
            final(self).outgoing@ == Seq::<u8>::empty(),
            final(self).incoming@ == old(self).incoming@,
    {
        let mut data: Vec<u8> = Vec::new();
        std::mem::swap(&mut data, &mut self.outgoing);
        data
    }
}

} // verus!
