//! The sending side: the driver that partitions the input byte stream into
//! indexed packets and deals them to the workers in rotation, and the worker
//! step that retries each PUT until it lands.
//!
//! The driver accumulates input chunks until a packet's worth is ready, then
//! emits it: packet `i` goes to worker `i mod W`.  When the input ends, the
//! accumulated tail (if any) is emitted, followed by one empty packet — the
//! end-of-stream marker.  The ghost bookkeeping shows that the emitted
//! packets carry indices `0, 1, 2, …` and, once the stream is closed, that
//! their payloads concatenate to exactly the bytes consumed from the input.

use vstd::prelude::*;

use crate::packet::{concat_payloads, lemma_concat_payloads_push, Packet};
use crate::PACKET_SIZE;

verus! {

/// The sender's driver: partitions the input into packets for the workers.
pub struct SenderDriver {
    /// Index of the next packet to emit.
    pub index: usize,
    /// Worker the next packet goes to.
    pub cursor: usize,
    /// Number of workers in the rotation.
    pub worker_num: usize,
    /// Bytes consumed from the input but not yet emitted.
    pub buf: Vec<u8>,
    /// True once the input has ended and the end-of-stream marker is out.
    pub closed: bool,
    /// Every byte consumed from the input source, in order.
    pub consumed: Ghost<Seq<u8>>,
    /// Every packet emitted to a worker, in emission order.
    pub emitted: Ghost<Seq<Packet>>,
}

impl SenderDriver {
    pub open spec fn wf(&self) -> bool {
        &&& self.worker_num > 0
        &&& self.cursor < self.worker_num
        &&& self.emitted@.len() == self.index
        &&& forall|i: int|
            0 <= i < self.emitted@.len() ==> (#[trigger] self.emitted@[i]).index == i
        &&& concat_payloads(self.emitted@) + self.buf@ == self.consumed@
        &&& !self.closed ==> self.cursor == self.index as int % self.worker_num as int
        &&& !self.closed ==> self.buf@.len() < PACKET_SIZE
        &&& self.closed ==> self.buf@.len() == 0
    }

    pub fn new(worker_num: usize) -> (d: SenderDriver)
        requires
            worker_num > 0,
        ensures
            d.wf(),
            d.worker_num == worker_num,
            d.index == 0,
            d.cursor == 0,
            !d.closed,
            d.consumed@.len() == 0,
            d.emitted@.len() == 0,
    {
        SenderDriver {
            index: 0,
            cursor: 0,
            worker_num,
            buf: Vec::new(),
            closed: false,
            consumed: Ghost(Seq::empty()),
            emitted: Ghost(Seq::empty()),
        }
    }

    /// The worker the next emitted packet goes to.
    pub fn target_worker(&self) -> (w: usize)
        ensures
            w == self.cursor,
    {
        self.cursor
    }

    /// Consume one chunk read from the input source.  When the accumulated
    /// bytes reach a packet's worth, the whole accumulation is emitted as the
    /// next packet, addressed to the cursor's worker.
    pub fn feed(&mut self, chunk: &[u8]) -> (out: Option<Packet>)
        requires
            old(self).wf(),
            !old(self).closed,
            chunk@.len() > 0,
            old(self).buf@.len() + chunk@.len() <= usize::MAX,
            old(self).index < usize::MAX - 1,
        ensures
            final(self).wf(),
            !final(self).closed,
            final(self).worker_num == old(self).worker_num,
            final(self).consumed@ == old(self).consumed@ + chunk@,
            old(self).buf@.len() + chunk@.len() < PACKET_SIZE ==> {
                &&& out is None
                &&& final(self).buf@ == old(self).buf@ + chunk@
                &&& final(self).index == old(self).index
                &&& final(self).cursor == old(self).cursor
                &&& final(self).emitted@ == old(self).emitted@
            },
            old(self).buf@.len() + chunk@.len() >= PACKET_SIZE ==> {
                &&& out matches Some(p)
                &&& out->0.index == old(self).index
                &&& out->0.data@ == old(self).buf@ + chunk@
                &&& final(self).emitted@ == old(self).emitted@.push(out->0)
                &&& final(self).index == old(self).index + 1
                &&& final(self).cursor == (old(self).cursor + 1) % (
                old(self).worker_num as int)
                &&& final(self).buf@.len() == 0
            },
    {
        let ghost pre_buf = self.buf@;
        let mut i: usize = 0;
        while i < chunk.len()
            invariant
                i <= chunk@.len(),
                self.buf@ == pre_buf + chunk@.subrange(0, i as int),
                pre_buf == old(self).buf@,
                pre_buf.len() + chunk@.len() <= usize::MAX,
                self.index == old(self).index,
                self.cursor == old(self).cursor,
                self.worker_num == old(self).worker_num,
                self.closed == old(self).closed,
                self.consumed@ == old(self).consumed@,
                self.emitted@ == old(self).emitted@,
            decreases chunk@.len() - i,
        {
            self.buf.push(chunk[i]);
            proof {
                assert(self.buf@ =~= pre_buf + chunk@.subrange(0, i + 1));
            }
            i = i + 1;
        }
        proof {
            assert(self.buf@ =~= pre_buf + chunk@);
        }
        self.consumed = Ghost(self.consumed@ + chunk@);

        if self.buf.len() < PACKET_SIZE {
            proof {
                assert(concat_payloads(self.emitted@) + self.buf@ =~= self.consumed@);
            }
            return None;
        }

        let mut data: Vec<u8> = Vec::new();
        std::mem::swap(&mut data, &mut self.buf);
        let p = Packet { index: self.index, data };
        self.emitted = Ghost(self.emitted@.push(p));
        self.index = self.index + 1;
        self.cursor = (self.cursor + 1) % self.worker_num;

        proof {
            lemma_concat_payloads_push(old(self).emitted@, p);
            assert(concat_payloads(self.emitted@) + self.buf@ =~= self.consumed@);
            vstd::arithmetic::div_mod::lemma_mod_bound(
                old(self).cursor + 1,
                self.worker_num as int,
            );
            vstd::arithmetic::div_mod::lemma_add_mod_noop(
                old(self).index as int,
                1,
                self.worker_num as int,
            );
            assert(1 as int % (self.worker_num as int) == 1 || self.worker_num == 1) by {
                if self.worker_num > 1 {
                    vstd::arithmetic::div_mod::lemma_small_mod(1nat, self.worker_num as nat);
                }
            }
        }
        Some(p)
    }

    /// The input source has ended: emit the accumulated tail, if any, and
    /// then the end-of-stream marker — an empty packet.  The tail goes to
    /// the cursor's worker and the marker to the worker after it (the same
    /// one when there is no tail).  After this the emitted payloads
    /// concatenate to exactly the consumed bytes.
    pub fn finish(&mut self) -> (out: (Option<Packet>, Packet))
        requires
            old(self).wf(),
            !old(self).closed,
            old(self).index < usize::MAX - 1,
        ensures
            final(self).wf(),
            final(self).closed,
            final(self).consumed@ == old(self).consumed@,
            concat_payloads(final(self).emitted@) == final(self).consumed@,
            old(self).buf@.len() == 0 ==> {
                &&& out.0 is None
                &&& out.1.index == old(self).index
                &&& out.1.data@.len() == 0
                &&& final(self).emitted@ == old(self).emitted@.push(out.1)
            },
            old(self).buf@.len() > 0 ==> {
                &&& out.0 matches Some(t)
                &&& out.0->0.index == old(self).index
                &&& out.0->0.data@ == old(self).buf@
                &&& out.1.index == old(self).index + 1
                &&& out.1.data@.len() == 0
                &&& final(self).emitted@ == old(self).emitted@.push(out.0->0).push(out.1)
            },
    {
        let tail = if self.buf.len() > 0 {
            let mut data: Vec<u8> = Vec::new();
            std::mem::swap(&mut data, &mut self.buf);
            let p = Packet { index: self.index, data };
            self.emitted = Ghost(self.emitted@.push(p));
            self.index = self.index + 1;
            self.cursor = (self.cursor + 1) % self.worker_num;
            proof {
                lemma_concat_payloads_push(old(self).emitted@, p);
                vstd::arithmetic::div_mod::lemma_mod_bound(
                    old(self).cursor + 1,
                    self.worker_num as int,
                );
            }
            Some(p)
        } else {
            None
        };

        let ghost mid_emitted = self.emitted@;
        let marker = Packet { index: self.index, data: Vec::new() };
        self.emitted = Ghost(self.emitted@.push(marker));
        self.index = self.index + 1;
        self.closed = true;

        proof {
            lemma_concat_payloads_push(mid_emitted, marker);
            assert(concat_payloads(self.emitted@) + self.buf@ =~= self.consumed@);
            assert(concat_payloads(self.emitted@) =~= self.consumed@);
        }
        (tail, marker)
    }
}

/// One PUT worker on the sending side: it owns at most one packet at a time
/// and repeats the PUT until the relay accepts it.
pub struct SendWorker {
    /// This worker's position in the rotation.
    pub worker_id: usize,
    /// The packet currently being sent, until the relay accepts it.
    pub pending: Option<Packet>,
    /// Every packet the relay has accepted from this worker, in order.
    pub delivered: Ghost<Seq<Packet>>,
}

/// What a send worker does after one PUT attempt.
pub enum SendStep {
    /// The relay accepted the packet: await the next one.
    Accepted,
    /// The attempt failed: sleep, rebuild the connection, and send the same
    /// packet again.
    Retry,
}

impl SendWorker {
    pub fn new(worker_id: usize) -> (w: SendWorker)
        ensures
            w.worker_id == worker_id,
            w.pending is None,
            w.delivered@.len() == 0,
    {
        SendWorker { worker_id, pending: None, delivered: Ghost(Seq::empty()) }
    }

    /// Accept the next packet from the driver.
    pub fn take(&mut self, p: Packet)
        requires
            old(self).pending is None,
        ensures
            final(self).pending == Some(p),
            final(self).delivered@ == old(self).delivered@,
            final(self).worker_id == old(self).worker_id,
    {
        self.pending = Some(p);
    }

    /// Record the outcome of one PUT attempt.  A failure leaves the packet
    /// pending, so the retry re-sends the very same packet; only a success
    /// retires it, and exactly once.
    pub fn on_result(&mut self, accepted: bool) -> (r: SendStep)
        requires
            old(self).pending is Some,
        ensures
            final(self).worker_id == old(self).worker_id,
            accepted ==> {
                &&& r is Accepted
                &&& final(self).pending is None
                &&& final(self).delivered@ == old(self).delivered@.push(
                    old(self).pending->0,
                )
            },
            !accepted ==> {
                &&& r is Retry
                &&& *final(self) == *old(self)
            },
    {
        if accepted {
            let mut taken: Option<Packet> = None;
            std::mem::swap(&mut taken, &mut self.pending);
            self.delivered = Ghost(self.delivered@.push(taken->0));
            SendStep::Accepted
        } else {
            SendStep::Retry
        }
    }
}

} // verus!
