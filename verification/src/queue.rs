//! The relay's per-channel packet buffer: bounded, ordered and
//! index-addressable.
//!
//! The buffer holds `Option<Packet>` slots.  Present slots carry strictly
//! increasing, contiguous indices; a `None` slot is a hole left by an
//! acknowledgement of an interior index.  The first slot is always present:
//! as soon as the head becomes a hole it is popped, together with any holes
//! behind it, so the first present packet's index is the buffer's base.
//!
//! Suspension is decided here and performed by the caller: `poll_push` and
//! `poll_get` report `Full` / `Pending` instead of blocking, and the caller
//! registers its waker and re-polls.  A successful `poll_push` asks the
//! caller to wake one suspended consumer; a `remove` that popped slots asks
//! it to wake one suspended producer.

use vstd::prelude::*;

use crate::packet::Packet;

verus! {

/// What `poll_push` decided.  `Pushed` means the packet was appended and one
/// suspended consumer should be woken; `Full` means the buffer was at
/// capacity, nothing changed, and the producer should suspend.
pub enum PushPoll {
    Pushed,
    Full,
}

/// What `poll_get` decided.  `Ready` carries the requested packet; `Gone`
/// means the index lies below the base or in a hole, so the packet can never
/// be served again; `Pending` means the packet has not arrived yet and the
/// consumer should suspend.
pub enum GetPoll {
    Ready(Packet),
    Gone,
    Pending,
}

/// The mathematical value of a `GetPoll`: the packet is reduced to its index
/// and its byte sequence.
#[verifier::ext_equal]
pub enum GetModel {
    Ready { index: int, data: Seq<u8> },
    Gone,
    Pending,
}

impl View for GetPoll {
    type V = GetModel;

    open spec fn view(&self) -> GetModel {
        match self {
            GetPoll::Ready(p) => GetModel::Ready { index: p.index as int, data: p.data@ },
            GetPoll::Gone => GetModel::Gone,
            GetPoll::Pending => GetModel::Pending,
        }
    }
}

/// The bounded, ordered, index-addressable packet buffer of one channel.
pub struct Queue {
    pub slots: Vec<Option<Packet>>,
    pub capacity: usize,
}

/// Every present slot's index equals `base` plus the slot's position.
pub open spec fn all_indexed(s: Seq<Option<Packet>>, base: int) -> bool {
    forall|i: int|
        0 <= i < s.len() && s[i] is Some ==> (#[trigger] s[i])->0.index == base + i
}

/// `s` with its leading holes removed.
pub open spec fn drop_leading_none(s: Seq<Option<Packet>>) -> Seq<Option<Packet>>
    decreases s.len(),
{
    if s.len() > 0 && s[0] is None {
        drop_leading_none(s.drop_first())
    } else {
        s
    }
}

/// Dropping leading holes yields a suffix whose head, if any, is present.
pub proof fn lemma_drop_leading_none(s: Seq<Option<Packet>>)
    ensures
        drop_leading_none(s).len() <= s.len(),
        drop_leading_none(s).len() > 0 ==> drop_leading_none(s)[0] is Some,
        drop_leading_none(s) == s.skip(s.len() - drop_leading_none(s).len()),
        forall|j: int|
            0 <= j < s.len() - drop_leading_none(s).len() ==> (#[trigger] s[j]) is None,
    decreases s.len(),
{
    if s.len() > 0 && s[0] is None {
        lemma_drop_leading_none(s.drop_first());
        let k = s.len() - drop_leading_none(s).len();
        assert(s.drop_first().skip(k - 1) =~= s.skip(k));
        assert forall|j: int| 0 <= j < k implies (#[trigger] s[j]) is None by {
            if j > 0 {
                assert(s.drop_first()[j - 1] is None);
            }
        }
    } else {
        assert(s.skip(0) =~= s);
    }
}

impl Queue {
    /// Index of the first present packet; meaningful only when non-empty.
    pub open spec fn base(&self) -> int {
        self.slots@[0]->0.index as int
    }

    pub open spec fn len(&self) -> int {
        self.slots@.len() as int
    }

    /// Well-formedness: at most `capacity` slots, a present head, and
    /// contiguous indices over the present slots.
    pub open spec fn wf(&self) -> bool {
        &&& self.slots@.len() <= self.capacity
        &&& self.slots@.len() > 0 ==> self.slots@[0] is Some
        &&& all_indexed(self.slots@, self.base())
    }

    /// What a consumer polling for `index` is owed in this state.
    pub open spec fn spec_get(&self, index: int) -> GetModel {
        if self.slots@.len() == 0 {
            GetModel::Pending
        } else if index < self.base() {
            GetModel::Gone
        } else if index < self.base() + self.slots@.len() {
            match self.slots@[index - self.base()] {
                Some(p) => GetModel::Ready { index: p.index as int, data: p.data@ },
                None => GetModel::Gone,
            }
        } else {
            GetModel::Pending
        }
    }

    pub fn new(capacity: usize) -> (q: Queue)
        ensures
            q.wf(),
            q.slots@.len() == 0,
            q.capacity == capacity,
    {
        Queue { slots: Vec::new(), capacity }
    }

    /// Append `p` if there is room.  The producer must keep the indices
    /// contiguous: on a non-empty buffer `p` goes right after the tail.
    pub fn poll_push(&mut self, p: Packet) -> (r: PushPoll)
        requires
            old(self).wf(),
            old(self).len() > 0 ==> p.index == old(self).base() + old(self).len(),
        ensures
            final(self).wf(),
            final(self).capacity == old(self).capacity,
            old(self).len() < old(self).capacity ==> {
                &&& r is Pushed
                &&& final(self).slots@ == old(self).slots@.push(Some(p))
            },
            old(self).len() >= old(self).capacity ==> {
                &&& r is Full
                &&& *final(self) == *old(self)
            },
            r is Pushed <==> old(self).len() < old(self).capacity,
    {
        if self.slots.len() < self.capacity {
            self.slots.push(Some(p));
            assert(self.wf()) by {
                let s = self.slots@;
                assert forall|i: int| 0 <= i < s.len() && s[i] is Some
                    implies (#[trigger] s[i])->0.index == self.base() + i by {
                    if i < s.len() - 1 {
                        assert(old(self).slots@[i] is Some);
                    }
                }
            }
            PushPoll::Pushed
        } else {
            PushPoll::Full
        }
    }

    /// Resolve a consumer's poll for `index` without blocking.
    pub fn poll_get(&self, index: usize) -> (r: GetPoll)
        requires
            self.wf(),
        ensures
            r@ == self.spec_get(index as int),
    {
        if self.slots.len() == 0 {
            return GetPoll::Pending;
        }

        let first_index = match &self.slots[0] {
            Some(p) => p.index,
            None => {
                proof {
                    assert(false);
                }
                return GetPoll::Pending;
            },
        };

        if index < first_index {
            return GetPoll::Gone;
        }

        if index - first_index < self.slots.len() {
            match &self.slots[index - first_index] {
                Some(p) => GetPoll::Ready(p.duplicate()),
                None => GetPoll::Gone,
            }
        } else {
            GetPoll::Pending
        }
    }

    /// Acknowledge `index`: blank its slot, then pop leading holes.  A call
    /// for an index outside the buffer changes nothing.  Returns whether any
    /// slot was popped, in which case the caller wakes one suspended
    /// producer.
    pub fn remove(&mut self, index: usize) -> (freed: bool)
        requires
            old(self).wf(),
        ensures
            final(self).wf(),
            final(self).capacity == old(self).capacity,
            (old(self).len() == 0 || index < old(self).base()
                || index >= old(self).base() + old(self).len()) ==> {
                &&& *final(self) == *old(self)
                &&& !freed
            },
            (old(self).len() > 0 && old(self).base() <= index
                && index < old(self).base() + old(self).len()) ==> final(self).slots@
                == drop_leading_none(
                old(self).slots@.update(index - old(self).base(), None),
            ),
            freed <==> final(self).len() < old(self).len(),
    {
        if self.slots.len() == 0 {
            return false;
        }

        let first_index = match &self.slots[0] {
            Some(p) => p.index,
            None => {
                proof {
                    assert(false);
                }
                return false;
            },
        };

        if index < first_index || index - first_index >= self.slots.len() {
            return false;
        }

        let ghost updated = old(self).slots@.update(index - old(self).base(), None);
        self.slots.set(index - first_index, None);

        let orig_len: usize = self.slots.len();

        loop
            invariant
                self.slots@.len() <= orig_len,
                drop_leading_none(self.slots@) == drop_leading_none(updated),
                all_indexed(self.slots@, updated.len() - self.slots@.len() + old(self).base()),
                self.capacity == old(self).capacity,
                orig_len == updated.len() <= self.capacity,
            ensures
                self.slots@.len() == 0 || self.slots@[0] is Some,
            decreases self.slots@.len(),
        {
            if self.slots.len() == 0 {
                break;
            }
            let pop_front = match &self.slots[0] {
                Some(_) => false,
                None => true,
            };
            if pop_front {
                let ghost before = self.slots@;
                let _ = self.slots.remove(0);
                proof {
                    assert(self.slots@ =~= before.drop_first());
                    let b = updated.len() - self.slots@.len() + old(self).base();
                    assert forall|i: int| 0 <= i < self.slots@.len() && self.slots@[i] is Some
                        implies (#[trigger] self.slots@[i])->0.index == b + i by {
                        assert(before[i + 1] is Some);
                    }
                }
            } else {
                break;
            }
        }

        proof {
            lemma_drop_leading_none(self.slots@);
            assert(self.slots@ =~= drop_leading_none(updated));
        }
        self.slots.len() < orig_len
    }
}

/// The buffer never holds more than its capacity in slots, holes included.
pub proof fn lemma_queue_bounded(q: Queue)
    requires
        q.wf(),
    ensures
        q.len() <= q.capacity,
{
}

/// Acknowledging one index never disturbs the packet served for another:
/// a GET for `index` re-issued after an acknowledgement of a different index
/// yields the same bytes as before.  (Popping only removes holes, and a
/// present slot is never a hole.)
pub proof fn lemma_ack_preserves_other_gets(pre: Queue, post: Queue, acked: int, index: int)
    requires
        pre.wf(),
        acked != index,
        pre.spec_get(index) is Ready,
        (pre.len() > 0 && pre.base() <= acked < pre.base() + pre.len()) ==> post.slots@
            == drop_leading_none(pre.slots@.update(acked - pre.base(), None)),
        !(pre.len() > 0 && pre.base() <= acked < pre.base() + pre.len()) ==> post.slots@
            == pre.slots@,
    ensures
        post.spec_get(index) == pre.spec_get(index),
{
    let b = pre.base();
    let o = index - b;
    assert(pre.slots@.len() > 0 && 0 <= o < pre.slots@.len() && pre.slots@[o] is Some);
    if pre.len() > 0 && b <= acked < b + pre.len() {
        let updated = pre.slots@.update(acked - b, None);
        lemma_drop_leading_none(updated);
        let k = updated.len() - post.slots@.len();
        assert(updated[o] == pre.slots@[o]);
        assert(k <= o) by {
            if k > o {
                assert(updated[o] is None);
            }
        }
        assert(post.slots@[o - k] == updated[o]);
        assert(post.slots@[0] == updated[k]);
        assert(updated[k] is Some);
        assert(updated[k] == pre.slots@[k]);
        assert(post.base() == b + k);
    }
}

/// A packet served for `index` carries exactly that index: a consumer never
/// sees a packet under the wrong position.
pub proof fn lemma_get_serves_exact_index(q: Queue, index: int)
    requires
        q.wf(),
        q.spec_get(index) is Ready,
    ensures
        q.spec_get(index)->Ready_index == index,
{
}

} // verus!
