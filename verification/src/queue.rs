use vstd::pervasive::VecAdditionalExecFns;
use vstd::prelude::*;
use vstd::slice::slice_to_vec;

use crate::telegram::{decode_message, message_bytes_ok, SendMessage};

verus! {

// ---------------------------------------------------------------------------
// Ring-buffer outbox.
//
// The queue is a fixed ring of QUEUE_LIMIT slots addressed by single bytes
// START_INDEX .. START_INDEX + QUEUE_LIMIT.  `head` is the slot of the oldest
// record, `tail` the next free slot; one slot always stays free, so
// `head == tail` means empty and `increment(tail) == head` means full, and
// the usable capacity is QUEUE_LIMIT - 1 records.  The cursors and the slot
// contents are the whole state, so a caller can persist them byte for byte.
// ---------------------------------------------------------------------------

/// Number of slot addresses in the ring.  One slot is always kept free, so
/// the queue holds at most QUEUE_LIMIT - 1 records.
pub const QUEUE_LIMIT: u8 = 20;

/// First slot address of the ring.
pub const START_INDEX: u8 = 0x41;

/// Whether a byte is a slot address of the ring.
pub open spec fn addr_ok(a: u8) -> bool {
    START_INDEX <= a < START_INDEX + QUEUE_LIMIT
}

/// The slot address one step around the ring.
pub open spec fn spec_increment(a: u8) -> u8 {
    if a == START_INDEX + QUEUE_LIMIT - 1 {
        START_INDEX
    } else {
        (a + 1) as u8
    }
}

/// How many increments lead from slot address `from` to slot address `to`.
pub open spec fn ring_distance(from: u8, to: u8) -> int
    recommends
        addr_ok(from),
        addr_ok(to),
{
    if to >= from {
        to - from
    } else {
        to - from + QUEUE_LIMIT
    }
}

pub struct FMemQueue {
    pub head: u8,
    pub tail: u8,
    pub slots: Vec<Vec<u8>>,
}

impl FMemQueue {
    pub open spec fn well_formed(self) -> bool {
        &&& addr_ok(self.head)
        &&& addr_ok(self.tail)
        &&& self.slots@.len() == QUEUE_LIMIT
    }

    /// Index into `slots` of the i-th oldest record.
    pub open spec fn slot_of(self, i: int) -> int {
        let p = self.head - START_INDEX + i;
        if p < QUEUE_LIMIT {
            p
        } else {
            p - QUEUE_LIMIT
        }
    }

    /// Number of records held.
    pub open spec fn size(self) -> int {
        ring_distance(self.head, self.tail)
    }

    /// The records held, oldest first.
    pub open spec fn contents(self) -> Seq<Seq<u8>> {
        Seq::new(self.size() as nat, |i: int| self.slots@[self.slot_of(i)]@)
    }

    /// Cursor form of "holds no record".
    pub open spec fn spec_is_empty(self) -> bool {
        self.head == self.tail
    }

    /// Cursor form of "holds the usable capacity of QUEUE_LIMIT - 1 records".
    pub open spec fn spec_is_full(self) -> bool {
        spec_increment(self.tail) == self.head
    }

    /// A fresh, empty queue.
    pub fn new() -> (r: Self)
        ensures
            r.well_formed(),
            r.head == START_INDEX,
            r.tail == START_INDEX,
            r.contents().len() == 0,
    {
        let mut slots: Vec<Vec<u8>> = Vec::new();
        let mut i: usize = 0;
        while i < QUEUE_LIMIT as usize
            invariant
                slots@.len() == i,
                i <= QUEUE_LIMIT,
            decreases QUEUE_LIMIT as int - i,
        {
            slots.push(Vec::new());
            i += 1;
        }
        FMemQueue { head: START_INDEX, tail: START_INDEX, slots }
    }

    /// Rebuild a queue from persisted cursors and slot contents, rejecting
    /// cursors that lie outside the ring's address range.
    pub fn restore(head: u8, tail: u8, slots: Vec<Vec<u8>>) -> (r: Option<Self>)
        ensures
            r is Some <==> (addr_ok(head) && addr_ok(tail) && slots@.len() == QUEUE_LIMIT),
            r matches Some(q) ==> q == (FMemQueue { head, tail, slots }),
    {
        if START_INDEX <= head && head < START_INDEX + QUEUE_LIMIT && START_INDEX <= tail && tail
            < START_INDEX + QUEUE_LIMIT && slots.len() == QUEUE_LIMIT as usize {
            Some(FMemQueue { head, tail, slots })
        } else {
            None
        }
    }

    /// The slot address one step around the ring; wraps from the top address
    /// START_INDEX + QUEUE_LIMIT - 1 back to START_INDEX.
    pub fn increment(&self, index: u8) -> (r: u8)
        requires
            addr_ok(index),
        ensures
            r == spec_increment(index),
            index == START_INDEX + QUEUE_LIMIT - 1 ==> r == START_INDEX,
            index < START_INDEX + QUEUE_LIMIT - 1 ==> r == index + 1,
            addr_ok(r),
    {
        if index == START_INDEX + QUEUE_LIMIT - 1 {
            START_INDEX
        } else {
            index + 1
        }
    }

    pub fn is_empty(&self) -> (r: bool)
        requires
            self.well_formed(),
        ensures
            r == self.spec_is_empty(),
            r == (self.contents().len() == 0),
    {
        self.head == self.tail
    }

    pub fn is_full(&self) -> (r: bool)
        requires
            self.well_formed(),
        ensures
            r == self.spec_is_full(),
            r == (self.contents().len() == QUEUE_LIMIT - 1),
    {
        let inc_tail = self.increment(self.tail);
        inc_tail == self.head
    }

    /// Write a record at `tail` and advance `tail`, unless the queue is full;
    /// a full queue is left unchanged and the record is not accepted.
    pub fn enqueue(&mut self, value: &[u8]) -> (accepted: bool)
        requires
            old(self).well_formed(),
        ensures
            final(self).well_formed(),
            accepted == !old(self).spec_is_full(),
            final(self).contents() == enqueue_model(old(self).contents(), value@),
            accepted ==> final(self).contents() == old(self).contents().push(value@)
                && final(self).head == old(self).head && final(self).tail == spec_increment(
                old(self).tail,
            ),
            !accepted ==> *final(self) == *old(self),
    {
        if self.is_full() {
            return false;
        }
        let idx = (self.tail - START_INDEX) as usize;
        self.slots.set(idx, slice_to_vec(value));
        let new_tail = self.increment(self.tail);
        self.tail = new_tail;
        proof {
            assert(self.contents() =~~= old(self).contents().push(value@));
        }
        true
    }

    /// The oldest record, left in place; nothing when the queue is empty.
    pub fn peek(&self) -> (r: Option<&Vec<u8>>)
        requires
            self.well_formed(),
        ensures
            r is Some <==> self.contents().len() > 0,
            r matches Some(v) ==> v@ == self.contents()[0],
    {
        if self.is_empty() {
            return None;
        }
        let idx = (self.head - START_INDEX) as usize;
        Some(&self.slots[idx])
    }

    /// Delete the oldest record and advance `head`; an empty queue is left
    /// unchanged and reports that nothing was removed.
    pub fn remove_first(&mut self) -> (removed: bool)
        requires
            old(self).well_formed(),
        ensures
            final(self).well_formed(),
            removed == (old(self).contents().len() > 0),
            final(self).contents() == remove_model(old(self).contents()),
            removed ==> final(self).contents() == old(self).contents().skip(1) && final(self).tail
                == old(self).tail && final(self).head == spec_increment(old(self).head),
            !removed ==> *final(self) == *old(self),
    {
        if self.is_empty() {
            return false;
        }
        let idx = (self.head - START_INDEX) as usize;
        self.slots.set(idx, Vec::new());
        let new_head = self.increment(self.head);
        self.head = new_head;
        proof {
            assert(self.contents() =~~= old(self).contents().skip(1));
        }
        true
    }

    /// Take the oldest record out: its slot is cleared and `head` advanced
    /// before the record is handed back.
    pub fn dequeue(&mut self) -> (r: Option<Vec<u8>>)
        requires
            old(self).well_formed(),
        ensures
            final(self).well_formed(),
            r is Some <==> old(self).contents().len() > 0,
            r matches Some(v) ==> v@ == old(self).contents()[0] && final(self).contents() == old(
                self,
            ).contents().skip(1),
            r is None ==> *final(self) == *old(self),
    {
        if self.is_empty() {
            return None;
        }
        let idx = (self.head - START_INDEX) as usize;
        let mut taken: Vec<u8> = Vec::new();
        self.slots.set_and_swap(idx, &mut taken);
        let new_head = self.increment(self.head);
        self.head = new_head;
        proof {
            assert(self.contents() =~~= old(self).contents().skip(1));
        }
        Some(taken)
    }
}

// ---------------------------------------------------------------------------
// The queue's behaviour at the level of the record sequence.
// ---------------------------------------------------------------------------

/// What one enqueue does to the records held: a queue at capacity is
/// unchanged, otherwise the record joins the back.
pub open spec fn enqueue_model(s: Seq<Seq<u8>>, v: Seq<u8>) -> Seq<Seq<u8>> {
    if s.len() == QUEUE_LIMIT - 1 {
        s
    } else {
        s.push(v)
    }
}

/// What one removal does to the records held.
pub open spec fn remove_model(s: Seq<Seq<u8>>) -> Seq<Seq<u8>> {
    if s.len() == 0 {
        s
    } else {
        s.skip(1)
    }
}

/// What a peek reports of the records held.
pub open spec fn peek_model(s: Seq<Seq<u8>>) -> Option<Seq<u8>> {
    if s.len() == 0 {
        None
    } else {
        Some(s[0])
    }
}

/// What one enqueue does to the messages held: an outbox at capacity is
/// unchanged, otherwise the message joins the back.
pub open spec fn enqueue_msg_model(s: Seq<(u32, Seq<char>)>, m: (u32, Seq<char>)) -> Seq<
    (u32, Seq<char>),
> {
    if s.len() == QUEUE_LIMIT - 1 {
        s
    } else {
        s.push(m)
    }
}

/// The records held after enqueueing `vals`, in order, from empty.
pub open spec fn fill_model(vals: Seq<Seq<u8>>) -> Seq<Seq<u8>>
    decreases vals.len(),
{
    if vals.len() == 0 {
        Seq::empty()
    } else {
        enqueue_model(fill_model(vals.drop_last()), vals.last())
    }
}

/// Law: the cursor tests agree with the number of records held.  A queue
/// holding fewer than QUEUE_LIMIT - 1 records never reports full, and one
/// holding at least one record never reports empty.
pub proof fn lemma_cursor_tests_match_size(q: FMemQueue)
    requires
        q.well_formed(),
    ensures
        0 <= q.contents().len() <= QUEUE_LIMIT - 1,
        q.spec_is_full() <==> q.contents().len() == QUEUE_LIMIT - 1,
        q.spec_is_empty() <==> q.contents().len() == 0,
{
}

/// Law: enqueueing QUEUE_LIMIT records into an empty queue fills it to its
/// usable capacity of QUEUE_LIMIT - 1: every enqueue before that bound is
/// accepted unchanged in order, and the QUEUE_LIMIT-th record is dropped.
pub proof fn lemma_fill_capacity(vals: Seq<Seq<u8>>)
    ensures
        vals.len() <= QUEUE_LIMIT - 1 ==> fill_model(vals) == vals,
        vals.len() >= QUEUE_LIMIT - 1 ==> fill_model(vals) == vals.take(QUEUE_LIMIT - 1),
    decreases vals.len(),
{
    if vals.len() == 0 {
        assert(fill_model(vals) =~~= vals);
    } else {
        lemma_fill_capacity(vals.drop_last());
        if vals.len() <= QUEUE_LIMIT - 1 {
            assert(fill_model(vals) =~~= vals);
        } else {
            assert(vals.drop_last().take(QUEUE_LIMIT - 1) =~~= vals.take(QUEUE_LIMIT - 1));
        }
    }
}

/// Law: the queue is first-in first-out.  After enqueueing records a, b, c
/// into an empty queue, the records taken out come as a, then b, then c.
pub proof fn lemma_fifo_order(a: Seq<u8>, b: Seq<u8>, c: Seq<u8>)
    ensures
        ({
            let q = enqueue_model(enqueue_model(enqueue_model(Seq::empty(), a), b), c);
            &&& peek_model(q) == Some(a)
            &&& peek_model(remove_model(q)) == Some(b)
            &&& peek_model(remove_model(remove_model(q))) == Some(c)
        }),
{
}

// ---------------------------------------------------------------------------
// Message-typed front of the ring buffer.
// ---------------------------------------------------------------------------

/// The ring buffer holding serialized messages: every record stored is a
/// well-formed message record, so every peek can decode.
pub struct MsgFMQueue {
    pub inner: FMemQueue,
}

impl MsgFMQueue {
    pub open spec fn well_formed(self) -> bool {
        &&& self.inner.well_formed()
        &&& forall|i: int|
            0 <= i < self.inner.contents().len() ==> message_bytes_ok(
                #[trigger] self.inner.contents()[i],
            )
    }

    /// The messages held, oldest first, each as its chat id and text.
    pub open spec fn messages(self) -> Seq<(u32, Seq<char>)> {
        self.inner.contents().map_values(|b: Seq<u8>| decode_message(b))
    }

    pub open spec fn spec_is_empty(self) -> bool {
        self.inner.spec_is_empty()
    }

    pub open spec fn spec_is_full(self) -> bool {
        self.inner.spec_is_full()
    }

    /// A fresh, empty outbox.
    pub fn new() -> (r: Self)
        ensures
            r.well_formed(),
            r.messages().len() == 0,
            r.inner.head == START_INDEX,
            r.inner.tail == START_INDEX,
    {
        let inner = FMemQueue::new();
        MsgFMQueue { inner }
    }

    pub fn is_empty(&self) -> (r: bool)
        requires
            self.well_formed(),
        ensures
            r == (self.messages().len() == 0),
    {
        self.inner.is_empty()
    }

    pub fn is_full(&self) -> (r: bool)
        requires
            self.well_formed(),
        ensures
            r == (self.messages().len() == QUEUE_LIMIT - 1),
    {
        self.inner.is_full()
    }

    /// Serialize the message and enqueue its record; a full outbox is left
    /// unchanged and reports that the message was not accepted.
    pub fn enqueue(&mut self, msg: SendMessage) -> (accepted: bool)
        requires
            old(self).well_formed(),
        ensures
            final(self).well_formed(),
            accepted == (old(self).messages().len() < QUEUE_LIMIT - 1),
            final(self).messages() == enqueue_msg_model(
                old(self).messages(),
                (msg.chat_id, msg.text@),
            ),
            accepted ==> final(self).messages() == old(self).messages().push(
                (msg.chat_id, msg.text@),
            ),
            !accepted ==> *final(self) == *old(self),
    {
        let ghost m = (msg.chat_id, msg.text@);
        let buf = msg.into_bytes();
        proof {
            crate::telegram::lemma_message_round_trip(m.0, m.1);
            lemma_cursor_tests_match_size(self.inner);
        }
        let accepted = self.inner.enqueue(buf.as_slice());
        proof {
            if accepted {
                assert(self.messages() =~~= old(self).messages().push(m));
            }
        }
        accepted
    }

    /// Decode the oldest message, left in place; nothing when empty.
    pub fn peek(&self) -> (r: Option<SendMessage>)
        requires
            self.well_formed(),
        ensures
            r is Some <==> self.messages().len() > 0,
            r matches Some(m) ==> (m.chat_id, m.text@) == self.messages()[0],
    {
        match self.inner.peek() {
            None => None,
            Some(v) => Some(SendMessage::from_bytes(v.as_slice())),
        }
    }

    /// Delete the oldest record and advance `head`; reports whether a record
    /// was removed.
    pub fn remove_first(&mut self) -> (removed: bool)
        requires
            old(self).well_formed(),
        ensures
            final(self).well_formed(),
            removed == (old(self).messages().len() > 0),
            removed ==> final(self).messages() == old(self).messages().skip(1),
            !removed ==> *final(self) == *old(self),
    {
        let removed = self.inner.remove_first();
        proof {
            if removed {
                assert(self.messages() =~~= old(self).messages().skip(1));
            }
        }
        removed
    }

    /// Rebuild the outbox from persisted cursors and slots, rejecting
    /// cursors outside the ring and records that do not decode.
    pub fn restore(head: u8, tail: u8, slots: Vec<Vec<u8>>) -> (r: Option<Self>)
        ensures
            r matches Some(q) ==> q.well_formed() && q.inner.head == head && q.inner.tail == tail
                && q.inner.slots == slots,
            r is None ==> !(addr_ok(head) && addr_ok(tail) && slots@.len() == QUEUE_LIMIT) || ({
                let q = (FMemQueue { head, tail, slots });
                exists|i: int|
                    0 <= i < q.contents().len() && !message_bytes_ok(#[trigger] q.contents()[i])
            }),
    {
        let ghost orig = (FMemQueue { head, tail, slots });
        let inner = match FMemQueue::restore(head, tail, slots) {
            None => {
                return None;
            },
            Some(q) => q,
        };
        proof {
            assert(inner == orig);
        }
        let mut ok = true;
        let mut cur: u8 = head;
        while cur != inner.tail
            invariant
                inner == orig,
                inner.well_formed(),
                inner.head == head,
                addr_ok(cur),
                ring_distance(head, cur) <= inner.size(),
                ok <==> (forall|i: int|
                    0 <= i < ring_distance(head, cur) ==> message_bytes_ok(
                        #[trigger] inner.contents()[i],
                    )),
            decreases inner.size() - ring_distance(head, cur),
        {
            let ghost k = ring_distance(head, cur);
            proof {
                assert(k < inner.size());
                assert(inner.slot_of(k) == cur - START_INDEX);
            }
            let idx = (cur - START_INDEX) as usize;
            let record = &inner.slots[idx];
            if SendMessage::try_from_bytes(record.as_slice()).is_none() {
                ok = false;
                proof {
                    assert(!message_bytes_ok(inner.contents()[k]));
                }
            }
            cur = inner.increment(cur);
        }
        if ok {
            proof {
                assert(ring_distance(head, cur) == inner.size());
            }
            Some(MsgFMQueue { inner })
        } else {
            proof {
                assert(!(forall|i: int|
                    0 <= i < orig.contents().len() ==> message_bytes_ok(
                        #[trigger] orig.contents()[i],
                    )));
            }
            None
        }
    }
}

} // verus!
