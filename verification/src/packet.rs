//! The unit of transport: one indexed slice of the byte stream.

use vstd::prelude::*;

verus! {

/// One `(index, bytes)` unit of the stream.  `index` is the packet's 0-based
/// position in the global stream; a packet with an empty payload is the
/// stream's end-of-file marker.
#[derive(Clone, Debug)]
pub struct Packet {
    pub index: usize,
    pub data: Vec<u8>,
}

impl Packet {
    /// An empty payload marks the end of the stream.
    pub open spec fn spec_is_eof(&self) -> bool {
        self.data@.len() == 0
    }

    #[verifier::when_used_as_spec(spec_is_eof)]
    pub fn is_eof(&self) -> (r: bool)
        ensures
            r == self.spec_is_eof(),
    {
        self.data.len() == 0
    }

    /// A copy that provably carries the same index and bytes.
    pub fn duplicate(&self) -> (p: Packet)
        ensures
            p.index == self.index,
            p.data@ == self.data@,
    {
        let mut data: Vec<u8> = Vec::new();
        let mut i: usize = 0;
        while i < self.data.len()
            invariant
                i <= self.data@.len(),
                data@ == self.data@.subrange(0, i as int),
            decreases self.data@.len() - i,
        {
            data.push(self.data[i]);
            proof {
                assert(data@ =~= self.data@.subrange(0, i + 1));
            }
            i += 1;
        }
        proof {
            assert(data@ =~= self.data@);
        }
        Packet { index: self.index, data }
    }
}

/// The bytes carried by a sequence of packets, in the order given.
pub open spec fn concat_payloads(packets: Seq<Packet>) -> Seq<u8>
    decreases packets.len(),
{
    if packets.len() == 0 {
        Seq::empty()
    } else {
        concat_payloads(packets.drop_last()) + packets.last().data@
    }
}

/// Appending one packet appends exactly its payload to the carried bytes.
pub proof fn lemma_concat_payloads_push(packets: Seq<Packet>, p: Packet)
    ensures
        concat_payloads(packets.push(p)) == concat_payloads(packets) + p.data@,
{
    assert(packets.push(p).drop_last() =~= packets);
    assert(packets.push(p).last() == p);
}

} // verus!
