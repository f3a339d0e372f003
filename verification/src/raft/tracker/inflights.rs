//! A sliding window over the append messages in flight to one follower.
use vstd::prelude::*;
use crate::raft::quorum::counting::strictly_increasing;

verus! {

/// How many of the leading indexes of `s` are at most `to`: the entries
/// freed by `free_le(to)`.
pub open spec fn freed_count(s: Seq<u64>, to: u64) -> nat
    decreases s.len(),
{
    if s.len() == 0 {
        0
    } else if to < s[0] {
        0
    } else {
        1 + freed_count(s.drop_first(), to)
    }
}

/// Where the indexes in flight were added in increasing order, as they must
/// be, freeing up to `to` leaves exactly those above `to`, in order.
pub proof fn lemma_free_le_in_order(s: Seq<u64>, to: u64)
    requires
        strictly_increasing(s),
    ensures
        s.skip(freed_count(s, to) as int) == s.filter(|x: u64| x > to),
    decreases s.len(),
{
    reveal(Seq::filter);
    if s.len() == 0 {
        assert(s.skip(0) =~= s);
    } else if to < s[0] {
        // Nothing is freed, and every index is above `to`.
        assert(s.skip(0) =~= s);
        lemma_filter_keeps_all(s, to);
    } else {
        let t = s.drop_first();
        assert forall|i: int, j: int| 0 <= i < j < t.len() implies t[i] < t[j] by {
            assert(t[i] == s[i + 1] && t[j] == s[j + 1]);
        }
        lemma_free_le_in_order(t, to);
        lemma_freed_count_bounded(t, to);
        assert(freed_count(s, to) == 1 + freed_count(t, to));
        assert(s.skip(1 + freed_count(t, to) as int) =~= t.skip(freed_count(t, to) as int));
        lemma_filter_drops_first(s, to);
    }
}

proof fn lemma_freed_count_bounded(s: Seq<u64>, to: u64)
    ensures
        freed_count(s, to) <= s.len(),
    decreases s.len(),
{
    if s.len() > 0 && to >= s[0] {
        lemma_freed_count_bounded(s.drop_first(), to);
    }
}

proof fn lemma_filter_keeps_all(s: Seq<u64>, to: u64)
    requires
        forall|k: int| 0 <= k < s.len() ==> s[k] > to,
    ensures
        s.filter(|x: u64| x > to) == s,
    decreases s.len(),
{
    reveal(Seq::filter);
    if s.len() > 0 {
        let t = s.drop_last();
        assert forall|k: int| 0 <= k < t.len() implies t[k] > to by {
            assert(t[k] == s[k]);
        }
        lemma_filter_keeps_all(t, to);
        assert(t.push(s.last()) =~= s);
    }
}

proof fn lemma_filter_drops_first(s: Seq<u64>, to: u64)
    requires
        s.len() > 0,
        s[0] <= to,
    ensures
        s.filter(|x: u64| x > to) == s.drop_first().filter(|x: u64| x > to),
    decreases s.len(),
{
    reveal(Seq::filter);
    let p = |x: u64| x > to;
    if s.len() == 1 {
        assert(s.drop_last() =~= Seq::<u64>::empty());
        assert(s.drop_first() =~= Seq::<u64>::empty());
    } else {
        let t = s.drop_last();
        assert(t[0] == s[0]);
        lemma_filter_drops_first(t, to);
        assert(s.drop_first().drop_last() =~= t.drop_first());
        assert(s.drop_first().last() == s.last());
    }
}

/// The position `k` places after `start` in a ring of `size` places, for
/// `start` in the ring and `k` at most `size`.
pub open spec fn ring_slot(start: int, size: int, k: int) -> int {
    if start + k < size {
        start + k
    } else {
        start + k - size
    }
}

/// A ring buffer holding, for each message in flight, the index of the last
/// entry it carries, in the order the messages were sent. It holds at most
/// `size` of them; the buffer grows as needed up to that size.
pub struct Inflights {
    // the starting index in the buffer
    pub(crate) start: usize,
    // number of inflights in the buffer
    pub(crate) count: isize,
    // the size of the buffer
    pub(crate) size: isize,
    // buffer contains the index of the last entry
    // inside one message
    pub(crate) buffer: Vec<u64>,
}

impl Inflights {
    /// The buffer position of the `k`-th message in flight.
    pub closed spec fn slot(self, k: int) -> int {
        ring_slot(self.start as int, self.size as int, k)
    }

    /// The window is consistent: it holds at most `size` messages, each at a
    /// position of the buffer, one after the other around the ring.
    pub closed spec fn wf(self) -> bool {
        &&& 0 <= self.count
        &&& (self.count <= self.size || self.count == 0)
        &&& self.buffer@.len() <= self.size || self.buffer@.len() == 0
        &&& (self.count == 0 ==> self.start == 0)
        &&& (self.count > 0 ==> {
            &&& self.start < self.buffer@.len()
            &&& (self.start + self.count <= self.buffer@.len() || self.buffer@.len() == self.size)
        })
    }

    /// The indexes in flight, oldest first.
    pub closed spec fn view(self) -> Seq<u64> {
        Seq::new(self.count as nat, |k: int| self.buffer@[self.slot(k)])
    }

    /// The most messages the window holds.
    pub closed spec fn capacity(self) -> int {
        self.size as int
    }

    pub fn new(size: isize) -> (r: Self)
        ensures
            r.wf(),
            r@ == Seq::<u64>::empty(),
            r.capacity() == size,
    {
        Inflights { start: 0, count: 0, size, buffer: Vec::new() }
    }

    /// Whether no more messages may be sent: the window is at its size.
    pub fn full(&self) -> (r: bool)
        requires
            self.wf(),
        ensures
            r == (self@.len() == self.capacity()),
    {
        self.count == self.size
    }

    /// Records a message sent whose last entry has index `inflight`.
    pub fn add(&mut self, inflight: u64)
        requires
            old(self).wf(),
            old(self).capacity() > 0,
            old(self)@.len() < old(self).capacity(),
        ensures
            final(self).wf(),
            final(self)@ == old(self)@.push(inflight),
            final(self).capacity() == old(self).capacity(),
    {
        let ghost old_view = self@;
        let room = self.size - self.start as isize;
        let next: usize = if self.count >= room {
            (self.count - room) as usize
        } else {
            (self.start as isize + self.count) as usize
        };
        if next >= self.buffer.len() {
            self.grow();
        }
        proof {
            assert(next < self.buffer@.len());
            assert forall|k: int| 0 <= k < old_view.len() implies self.slot(k) != next by {}
        }
        self.buffer.set(next, inflight);
        self.count = self.count + 1;
        proof {
            assert forall|k: int| 0 <= k < self.count implies #[trigger] self@[k] == old_view.push(
                inflight,
            )[k] by {
                if k < self.count - 1 {
                    assert(self.slot(k) != next);
                    assert(self.slot(k) == old(self).slot(k));
                }
            }
            assert(self@ =~= old_view.push(inflight));
        }
    }

    /// Doubles the buffer, up to the window's size.
    fn grow(&mut self)
        requires
            old(self).wf(),
            old(self).size > 0,
            old(self).count < old(self).size,
            old(self).buffer@.len() < old(self).size,
        ensures
            final(self).wf(),
            final(self)@ == old(self)@,
            final(self).size == old(self).size,
            final(self).start == old(self).start,
            final(self).count == old(self).count,
            final(self).buffer@.len() > old(self).buffer@.len(),
            final(self).buffer@.len() == old(self).size || final(self).buffer@.len() >= 2 * old(
                self,
            ).buffer@.len(),
            old(self).buffer@ == final(self).buffer@.take(old(self).buffer@.len() as int),
    {
        let len = self.buffer.len();
        let new_size: usize = if len == 0 {
            1
        } else if len as isize > self.size / 2 {
            self.size as usize
        } else {
            len * 2
        };
        let ghost old_buf = self.buffer@;
        let mut i: usize = len;
        while i < new_size
            invariant
                len == old_buf.len(),
                len <= i <= new_size,
                self.buffer@.len() == i,
                self.buffer@.take(len as int) == old_buf,
                self.start == old(self).start,
                self.count == old(self).count,
                self.size == old(self).size,
            decreases new_size - i,
        {
            self.buffer.push(0);
            proof {
                assert(self.buffer@.take(len as int) =~= old_buf);
            }
            i = i + 1;
        }
        proof {
            assert forall|k: int| 0 <= k < self.count implies #[trigger] self@[k] == old(self)@[k] by {
                old(self).lemma_slot_in_buffer(k);
                assert(self.slot(k) < len);
                assert(self.buffer@.take(len as int)[self.slot(k)] == self.buffer@[self.slot(k)]);
            }
            assert(self@ =~= old(self)@);
        }
    }

    /// Frees the messages in flight whose last index is at most `to`: the
    /// leading ones, up to the first that is above `to`.
    pub fn free_le(&mut self, to: u64)
        requires
            old(self).wf(),
        ensures
            final(self).wf(),
            final(self)@ == old(self)@.skip(freed_count(old(self)@, to) as int),
            final(self).capacity() == old(self).capacity(),
    {
        proof {
            if self.count > 0 {
                self.lemma_slot_in_buffer(0);
            }
        }
        if self.count == 0 || to < self.buffer[self.start] {
            // out of the left side of the window
            proof {
                if self.count > 0 {
                    assert(self@[0] == self.buffer@[self.start as int]);
                }
                reveal_with_fuel(freed_count, 2);
                assert(self@.skip(0) =~= self@);
            }
            return;
        }
        let ghost s = self@;
        proof {
            assert(s.skip(0) =~= s);
        }
        let mut idx = self.start;
        let mut i: isize = 0;
        while i < self.count
            invariant_except_break
                self.wf(),
                self@ == s,
                self.count > 0,
                0 <= i <= self.count,
                idx as int == self.slot(i as int),
                freed_count(s, to) == i + freed_count(s.skip(i as int), to),
            ensures
                self.wf(),
                self@ == s,
                self.count > 0,
                0 <= i <= self.count,
                idx as int == self.slot(i as int),
                i == freed_count(s, to),
            decreases self.count - i,
        {
            proof {
                self.lemma_slot_in_buffer(i as int);
            }
            if to < self.buffer[idx] {
                proof {
                    assert(s.skip(i as int)[0] == s[i as int]);
                    assert(freed_count(s.skip(i as int), to) == 0);
                }
                break;
            }
            proof {
                assert(s.skip(i as int)[0] == s[i as int]);
                assert(s.skip(i as int).drop_first() =~= s.skip(i as int + 1));
            }
            let size = self.size as usize;
            idx = idx + 1;
            if idx >= size {
                idx = idx - size;
            }
            i = i + 1;
            proof {
                if i == self.count {
                    assert(s.skip(i as int) =~= Seq::<u64>::empty());
                }
            }
        }
        let ghost old_self = *self;
        self.count = self.count - i;
        self.start = idx;
        if self.count == 0 {
            self.start = 0;
        }
        proof {
            assert forall|k: int| 0 <= k < self.count implies #[trigger] self.slot(k) == old_self.slot(
                i + k,
            ) by {}
            if self.count > 0 {
                old_self.lemma_slot_in_buffer(i as int);
            }
            assert(self@ =~= s.skip(i as int));
        }
    }

    /// The window never holds more messages than its size.
    pub proof fn lemma_within_capacity(self)
        requires
            self.wf(),
        ensures
            self@.len() == 0 || self@.len() <= self.capacity(),
    {
    }

    /// Every message in flight has its place in the buffer.
    proof fn lemma_slot_in_buffer(self, k: int)
        requires
            self.wf(),
            0 <= k < self.count,
        ensures
            0 <= self.slot(k) < self.buffer@.len(),
    {
    }

    /// Frees the oldest message in flight, with any that follow it carrying
    /// no later index; nothing happens if none is in flight.
    pub fn free_first_one(&mut self)
        requires
            old(self).wf(),
        ensures
            final(self).wf(),
            old(self)@.len() == 0 ==> final(self)@ == old(self)@,
            old(self)@.len() > 0 ==> final(self)@ == old(self)@.skip(
                freed_count(old(self)@, old(self)@[0]) as int,
            ),
            final(self).capacity() == old(self).capacity(),
    {
        if self.count > 0 {
            proof {
                self.lemma_slot_in_buffer(0);
            }
            let first = self.buffer[self.start];
            proof {
                assert(old(self)@[0] == first);
            }
            self.free_le(first);
        }
    }

    /// The number of messages in flight.
    pub fn count(&self) -> (r: isize)
        requires
            self.wf(),
        ensures
            r == self@.len(),
    {
        self.count
    }

    /// Empties the window.
    pub(crate) fn reset(&mut self)
        requires
            old(self).wf(),
        ensures
            final(self).wf(),
            final(self)@ == Seq::<u64>::empty(),
            final(self).capacity() == old(self).capacity(),
    {
        self.count = 0;
        self.start = 0;
        proof {
            assert(self@ =~= Seq::<u64>::empty());
        }
    }
}

} // verus!
