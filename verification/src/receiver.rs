//! The receiving side: each worker fetches the packet indices congruent to
//! its id modulo the worker count, acknowledging its previous packet on each
//! request, and the driver drains the workers in rotation so the payloads
//! come out in stream order.
//!
//! The reassembly argument is proved here once and for all: the driver's
//! `j`-th chunk comes from worker `j mod W` and is that worker's
//! `(j div W)`-th packet, whose stream index is `W * (j div W) + (j mod W)
//! = j` — so draining the rotation concatenates the packet payloads in index
//! order, which is exactly the byte stream the sender consumed.

use vstd::prelude::*;

use crate::packet::{concat_payloads, Packet};
use crate::sender::SenderDriver;

verus! {

/// One GET worker: fetches indices `worker_id`, `worker_id + worker_num`,
/// `worker_id + 2·worker_num`, …, acknowledging each packet on the request
/// for the next one.
pub struct RecvWorker {
    /// The index of the next packet this worker fetches.
    pub index: usize,
    /// The index acknowledged on the next request: the previous packet, if
    /// any.
    pub ack: Option<usize>,
    /// This worker's position in the rotation.
    pub worker_id: usize,
    /// Number of workers in the rotation.
    pub worker_num: usize,
    /// True once this worker has seen the end-of-stream marker.
    pub done: bool,
    /// Every payload this worker has delivered to the driver, in order.
    pub received: Ghost<Seq<Seq<u8>>>,
}

impl RecvWorker {
    pub open spec fn wf(&self) -> bool {
        &&& self.worker_num > 0
        &&& self.worker_id < self.worker_num
        &&& self.index == self.worker_id + self.received@.len() * self.worker_num
        &&& if self.received@.len() == 0 {
            self.ack is None
        } else {
            self.ack == Some((self.index - self.worker_num) as usize)
        }
    }

    pub fn new(worker_id: usize, worker_num: usize) -> (w: RecvWorker)
        requires
            worker_num > 0,
            worker_id < worker_num,
        ensures
            w.wf(),
            w.worker_id == worker_id,
            w.worker_num == worker_num,
            w.index == worker_id,
            w.ack is None,
            !w.done,
            w.received@.len() == 0,
    {
        RecvWorker {
            index: worker_id,
            ack: None,
            worker_id,
            worker_num,
            done: false,
            received: Ghost(Seq::empty()),
        }
    }

    /// The headers of this worker's next GET: the index it polls for, and
    /// the acknowledgement it piggy-backs.
    pub fn request(&self) -> (r: (usize, Option<usize>))
        ensures
            r.0 == self.index,
            r.1 == self.ack,
    {
        (self.index, self.ack)
    }

    /// A failed attempt (transport error or failure status) changes nothing:
    /// the worker sleeps and re-issues the same request, with the same index
    /// and the same acknowledgement.
    pub fn on_error(&mut self)
        ensures
            *final(self) == *old(self),
    {
    }

    /// A successful response.  An empty body is the end of the stream: the
    /// worker exits without delivering it.  Otherwise the body is delivered
    /// to the driver, the fetched index becomes the acknowledgement for the
    /// next request, and the worker moves to its next index.
    pub fn on_response(&mut self, body: Vec<u8>) -> (out: Option<Vec<u8>>)
        requires
            old(self).wf(),
            !old(self).done,
            old(self).index + old(self).worker_num <= usize::MAX,
        ensures
            final(self).wf(),
            final(self).worker_id == old(self).worker_id,
            final(self).worker_num == old(self).worker_num,
            body@.len() == 0 ==> {
                &&& out is None
                &&& final(self).done
                &&& final(self).received@ == old(self).received@
                &&& final(self).index == old(self).index
                &&& final(self).ack == old(self).ack
            },
            body@.len() > 0 ==> {
                &&& out == Some(body)
                &&& !final(self).done
                &&& final(self).received@ == old(self).received@.push(body@)
                &&& final(self).index == old(self).index + old(self).worker_num
                &&& final(self).ack == Some(old(self).index)
            },
    {
        if body.len() == 0 {
            self.done = true;
            return None;
        }

        self.received = Ghost(self.received@.push(body@));
        self.ack = Some(self.index);
        self.index = self.index + self.worker_num;

        proof {
            let l = old(self).received@.len() as int;
            let w = self.worker_num as int;
            assert((l + 1) * w == l * w + w) by (nonlinear_arith);
        }
        Some(body)
    }
}

/// The receiver's driver: drains the workers in rotation and writes each
/// delivered payload to the output sink.
pub struct RecvDriver {
    /// Worker whose channel is read next.
    pub cursor: usize,
    /// Number of workers in the rotation.
    pub worker_num: usize,
    /// True once a worker's channel closed: the stream has ended.
    pub finished: bool,
    /// Every chunk written to the output sink, in order.
    pub chunks: Ghost<Seq<Seq<u8>>>,
}

impl RecvDriver {
    pub open spec fn wf(&self) -> bool {
        &&& self.worker_num > 0
        &&& self.cursor == self.chunks@.len() as int % self.worker_num as int
    }

    /// The bytes written to the output sink so far.
    pub open spec fn output(&self) -> Seq<u8> {
        self.chunks@.flatten()
    }

    pub fn new(worker_num: usize) -> (d: RecvDriver)
        requires
            worker_num > 0,
        ensures
            d.wf(),
            d.worker_num == worker_num,
            d.cursor == 0,
            !d.finished,
            d.chunks@.len() == 0,
    {
        proof {
            vstd::arithmetic::div_mod::lemma_small_mod(0nat, worker_num as nat);
        }
        RecvDriver { cursor: 0, worker_num, finished: false, chunks: Ghost(Seq::empty()) }
    }

    /// The worker whose delivery is consumed next.
    pub fn next_worker(&self) -> (w: usize)
        ensures
            w == self.cursor,
    {
        self.cursor
    }

    /// One payload arrived from the cursor's worker and was written to the
    /// output sink; move to the next worker in the rotation.
    pub fn on_chunk(&mut self, chunk: &Vec<u8>)
        requires
            old(self).wf(),
            !old(self).finished,
        ensures
            final(self).wf(),
            final(self).worker_num == old(self).worker_num,
            !final(self).finished,
            final(self).chunks@ == old(self).chunks@.push(chunk@),
            final(self).output() == old(self).output() + chunk@,
            final(self).cursor == (old(self).cursor + 1) % (old(self).worker_num as int),
    {
        self.cursor = if self.cursor + 1 == self.worker_num {
            0
        } else {
            self.cursor + 1
        };
        self.chunks = Ghost(self.chunks@.push(chunk@));
        proof {
            let l = old(self).chunks@.len() as int;
            let w = self.worker_num as int;
            vstd::arithmetic::div_mod::lemma_add_mod_noop(l, 1, w);
            if w == 1 {
                vstd::arithmetic::div_mod::lemma_mod_self_0(w);
                vstd::arithmetic::div_mod::lemma_small_mod(0nat, 1nat);
            } else {
                vstd::arithmetic::div_mod::lemma_small_mod(1nat, w as nat);
                if old(self).cursor + 1 == w {
                    vstd::arithmetic::div_mod::lemma_mod_self_0(w);
                } else {
                    vstd::arithmetic::div_mod::lemma_small_mod(
                        (old(self).cursor + 1) as nat,
                        w as nat,
                    );
                }
            }
            old(self).chunks@.lemma_flatten_push(chunk@);
        }
    }

    /// A worker's channel closed: the stream has ended and the driver stops.
    pub fn on_closed(&mut self)
        ensures
            final(self).finished,
            final(self).chunks@ == old(self).chunks@,
            final(self).worker_num == old(self).worker_num,
            final(self).cursor == old(self).cursor,
    {
        self.finished = true;
    }
}

/// A worker only ever requests indices of its own residue class: its
/// `k`-th fetch is for stream index `worker_id + k·worker_num`.
pub proof fn lemma_worker_stays_in_residue_class(w: RecvWorker)
    requires
        w.wf(),
    ensures
        w.index as int % w.worker_num as int == w.worker_id as int,
{
    vstd::arithmetic::div_mod::lemma_mod_multiples_vanish(
        w.received@.len() as int,
        w.worker_id as int,
        w.worker_num as int,
    );
    vstd::arithmetic::div_mod::lemma_small_mod(w.worker_id as nat, w.worker_num as nat);
}

/// The payloads of a packet sequence, one chunk per packet, in index order.
pub open spec fn payloads(packets: Seq<Packet>) -> Seq<Seq<u8>> {
    Seq::new(packets.len(), |j: int| packets[j].data@)
}

/// The chunk the driver consumes at step `j` when the workers fetch indices
/// congruent to their id and the driver drains them in rotation: worker
/// `j mod w` hands over its `(j div w)`-th payload, which is the packet at
/// stream index `w · (j div w) + (j mod w)`.
pub open spec fn rotation_chunk(packets: Seq<Packet>, w: int, j: int) -> Seq<u8> {
    packets[w * (j / w) + j % w].data@
}

/// Everything the driver writes, in the order the rotation produces it.
pub open spec fn reassembled(packets: Seq<Packet>, w: int) -> Seq<Seq<u8>> {
    Seq::new(packets.len(), |j: int| rotation_chunk(packets, w, j))
}

/// Flattening one chunk per packet concatenates the payloads.
pub proof fn lemma_flatten_payloads(packets: Seq<Packet>)
    ensures
        payloads(packets).flatten() == concat_payloads(packets),
    decreases packets.len(),
{
    broadcast use Seq::lemma_flatten_push;

    if packets.len() == 0 {
        assert(payloads(packets) =~= Seq::<Seq<u8>>::empty());
        assert(payloads(packets).flatten() =~= concat_payloads(packets));
    } else {
        lemma_flatten_payloads(packets.drop_last());
        assert(payloads(packets) =~= payloads(packets.drop_last()).push(
            packets.last().data@,
        ));
    }
}

/// Draining the workers in rotation yields the packets in stream order:
/// the `j`-th chunk consumed is exactly packet `j`'s payload.
pub proof fn lemma_rotation_preserves_order(packets: Seq<Packet>, w: int)
    requires
        w > 0,
    ensures
        reassembled(packets, w) == payloads(packets),
        reassembled(packets, w).flatten() == concat_payloads(packets),
{
    assert forall|j: int| 0 <= j < packets.len() implies rotation_chunk(packets, w, j)
        == packets[j].data@ by {
        vstd::arithmetic::div_mod::lemma_fundamental_div_mod(j, w);
    }
    assert(reassembled(packets, w) =~= payloads(packets));
    lemma_flatten_payloads(packets);
}

/// End to end: once the sender's driver has closed the stream, reassembling
/// its emitted packets through the worker rotation yields, byte for byte,
/// exactly the input the sender consumed.
pub proof fn lemma_pipe_preserves_stream(d: SenderDriver, w: int)
    requires
        d.wf(),
        d.closed,
        w > 0,
    ensures
        reassembled(d.emitted@, w).flatten() == d.consumed@,
{
    lemma_rotation_preserves_order(d.emitted@, w);
    assert(concat_payloads(d.emitted@) =~= d.consumed@);
}

} // verus!
