//! One relay channel: the sequencer that drains the per-worker mailboxes in
//! round-robin order, and the outbound queue it feeds.
//!
//! The sequencer holds a monotonic counter of the next packet index it will
//! accept.  A delivered packet whose index lies below the counter is a
//! duplicate from a client retry and is dropped; one that matches is pushed
//! onto the queue.  The ghost history of pushed packets therefore carries
//! indices `0, 1, 2, …` with no gaps and no duplicates, whatever order the
//! PUT requests arrived in.

use vstd::prelude::*;

use crate::packet::Packet;
use crate::queue::{PushPoll, Queue};

verus! {

/// The per-channel sequencing state: how many packets have been pushed, and
/// which worker's mailbox is drained next.
pub struct Sequencer {
    /// Index the next pushed packet must carry.
    pub expected: usize,
    /// Worker whose mailbox is drained next.
    pub cursor: usize,
    /// Number of worker mailboxes.
    pub worker_num: usize,
    /// True once an end-of-stream packet has been pushed.
    pub done: bool,
    /// Every packet pushed onto the queue so far, in push order.
    pub history: Ghost<Seq<Packet>>,
}

impl Sequencer {
    pub open spec fn wf(&self) -> bool {
        &&& self.worker_num > 0
        &&& self.cursor < self.worker_num
        &&& self.history@.len() == self.expected
        &&& forall|i: int|
            0 <= i < self.history@.len() ==> (#[trigger] self.history@[i]).index == i
    }
}

/// What the channel did with a delivered packet.
pub enum ChannelPush {
    /// The packet was the expected one and was appended to the queue; the
    /// caller wakes one suspended consumer and moves to the next mailbox.
    Pushed,
    /// A retry re-delivered an index the sequencer has already pushed; the
    /// packet was dropped and nothing changed.
    Duplicate,
    /// The queue is at capacity; nothing changed, and the caller suspends
    /// until a consumer acknowledgement frees a slot, then delivers again.
    Full,
}

/// A live channel: the sequencer plus the outbound queue it feeds.
pub struct Channel {
    pub sequencer: Sequencer,
    pub queue: Queue,
}

impl Channel {
    /// The queue holds a window of the push history: its slots sit right
    /// below the sequencer's counter, and every present slot carries the
    /// payload that was pushed for its index.
    pub open spec fn wf(&self) -> bool {
        &&& self.sequencer.wf()
        &&& self.queue.wf()
        &&& self.queue.len() > 0 ==> self.queue.base() + self.queue.len()
            == self.sequencer.expected
        &&& forall|j: int|
            0 <= j < self.queue.slots@.len() && self.queue.slots@[j] is Some
                ==> (#[trigger] self.queue.slots@[j])->0.data@
                == self.sequencer.history@[self.queue.base() + j].data@
    }

    /// A fresh channel for `worker_num` client workers, with a queue of the
    /// given capacity.
    pub fn new(worker_num: usize, capacity: usize) -> (c: Channel)
        requires
            worker_num > 0,
        ensures
            c.wf(),
            c.sequencer.worker_num == worker_num,
            c.sequencer.expected == 0,
            c.sequencer.cursor == 0,
            !c.sequencer.done,
            c.sequencer.history@.len() == 0,
            c.queue.len() == 0,
            c.queue.capacity == capacity,
    {
        Channel {
            sequencer: Sequencer {
                expected: 0,
                cursor: 0,
                worker_num,
                done: false,
                history: Ghost(Seq::empty()),
            },
            queue: Queue::new(capacity),
        }
    }

    /// Sequence one packet delivered from the cursor's mailbox.
    ///
    /// A duplicate (index below the counter) is dropped and the cursor stays
    /// on the same mailbox, so a client retry enqueues a packet at most once.
    /// Otherwise the packet must be the expected one; it is appended to the
    /// queue if there is room, and the cursor moves to the next mailbox.
    pub fn on_packet(&mut self, p: Packet) -> (r: ChannelPush)
        requires
            old(self).wf(),
            !old(self).sequencer.done,
            p.index <= old(self).sequencer.expected,
            old(self).sequencer.expected < usize::MAX,
        ensures
            final(self).wf(),
            final(self).sequencer.worker_num == old(self).sequencer.worker_num,
            final(self).queue.capacity == old(self).queue.capacity,
            p.index < old(self).sequencer.expected ==> {
                &&& r is Duplicate
                &&& *final(self) == *old(self)
            },
            p.index == old(self).sequencer.expected
                && old(self).queue.len() >= old(self).queue.capacity ==> {
                &&& r is Full
                &&& *final(self) == *old(self)
            },
            p.index == old(self).sequencer.expected
                && old(self).queue.len() < old(self).queue.capacity ==> {
                &&& r is Pushed
                &&& final(self).sequencer.history@ == old(self).sequencer.history@.push(p)
                &&& final(self).sequencer.expected == old(self).sequencer.expected + 1
                &&& final(self).sequencer.cursor == (old(self).sequencer.cursor + 1)
                    % (old(self).sequencer.worker_num as int)
                &&& final(self).sequencer.done == p.spec_is_eof()
                &&& final(self).queue.slots@ == old(self).queue.slots@.push(Some(p))
            },
    {
        if p.index < self.sequencer.expected {
            return ChannelPush::Duplicate;
        }

        if self.queue.slots.len() >= self.queue.capacity {
            return ChannelPush::Full;
        }

        let is_eof = p.is_eof();
        let ghost pushed = p;
        match self.queue.poll_push(p) {
            PushPoll::Pushed => {},
            PushPoll::Full => {
                proof {
                    assert(false);
                }
                return ChannelPush::Full;
            },
        }

        self.sequencer.history = Ghost(self.sequencer.history@.push(pushed));
        self.sequencer.expected = self.sequencer.expected + 1;
        self.sequencer.cursor = (self.sequencer.cursor + 1) % self.sequencer.worker_num;
        self.sequencer.done = is_eof;

        proof {
            let s = self.queue.slots@;
            let h = self.sequencer.history@;
            assert forall|j: int| 0 <= j < s.len() && s[j] is Some
                implies (#[trigger] s[j])->0.data@ == h[self.queue.base() + j].data@ by {
                if j < s.len() - 1 {
                    assert(old(self).queue.slots@[j] is Some);
                }
            }
        }

        ChannelPush::Pushed
    }

    /// Acknowledge `index`: forward to the queue.  Returns whether a slot was
    /// freed, in which case the caller wakes one suspended producer.
    pub fn ack(&mut self, index: usize) -> (freed: bool)
        requires
            old(self).wf(),
        ensures
            final(self).wf(),
            final(self).sequencer == old(self).sequencer,
            final(self).queue.capacity == old(self).queue.capacity,
            freed <==> final(self).queue.len() < old(self).queue.len(),
            (old(self).queue.len() == 0 || index < old(self).queue.base()
                || index >= old(self).queue.base() + old(self).queue.len())
                ==> final(self).queue.slots@ == old(self).queue.slots@,
            (old(self).queue.len() > 0 && old(self).queue.base() <= index
                && index < old(self).queue.base() + old(self).queue.len())
                ==> final(self).queue.slots@ == crate::queue::drop_leading_none(
                old(self).queue.slots@.update(index - old(self).queue.base(), None),
            ),
    {
        let ghost pre = self.queue;
        let freed = self.queue.remove(index);
        proof {
            let s = self.queue.slots@;
            let h = self.sequencer.history@;
            if pre.len() > 0 && pre.base() <= index < pre.base() + pre.len() {
                let updated = pre.slots@.update(index - pre.base(), None);
                crate::queue::lemma_drop_leading_none(updated);
                let k = updated.len() - s.len();
                assert forall|j: int| 0 <= j < s.len() && s[j] is Some
                    implies (#[trigger] s[j])->0.data@ == h[self.queue.base() + j].data@ by {
                    assert(s[j] == updated[j + k]);
                    assert(pre.slots@[j + k] is Some);
                }
                if s.len() > 0 {
                    assert(s[0] == updated[k]);
                    assert(pre.slots@[k] is Some);
                }
            }
        }
        freed
    }
}

/// The indices pushed onto a channel's queue are exactly `0, 1, 2, …` in
/// order: no gaps and no duplicates, regardless of PUT arrival order.
pub proof fn lemma_pushed_indices_contiguous(c: Channel, i: int, j: int)
    requires
        c.wf(),
        0 <= i < c.sequencer.history@.len(),
        0 <= j < c.sequencer.history@.len(),
    ensures
        c.sequencer.history@[i].index == i,
        i != j ==> c.sequencer.history@[i].index != c.sequencer.history@[j].index,
{
}

/// However many times a client retries a PUT, it takes effect at most once:
/// the sequencer's counter moves past an index the moment it is pushed, so a
/// re-delivery is dropped as a duplicate, and no packet can stand at two
/// positions of the push history.
pub proof fn lemma_retried_put_enqueues_once(c: Channel, i: int, j: int)
    requires
        c.wf(),
        0 <= i < c.sequencer.history@.len(),
        0 <= j < c.sequencer.history@.len(),
        c.sequencer.history@[i] == c.sequencer.history@[j],
    ensures
        i == j,
{
}

/// The bytes the queue serves for `index` are the bytes pushed for `index`:
/// a consumer polling one position can never observe another position's
/// payload, so duplicate PUTs never surface twice in the output.
pub proof fn lemma_get_serves_history(c: Channel, index: int)
    requires
        c.wf(),
        c.queue.spec_get(index) is Ready,
    ensures
        0 <= index < c.sequencer.history@.len(),
        c.queue.spec_get(index)->Ready_data == c.sequencer.history@[index].data@,
        c.queue.spec_get(index)->Ready_index == index,
{
    let q = c.queue;
    assert(q.slots@.len() > 0);
    assert(q.base() <= index < q.base() + q.slots@.len());
    assert(q.slots@[index - q.base()] is Some);
}

} // verus!
