//! A follower's progress in the view of the leader.
use std::collections::HashMap;
use vstd::prelude::*;
use vstd::std_specs::iter::IteratorSpec;
use vstd::std_specs::hash::spec_keys_iter;
use crate::raft::quorum::counting::{lemma_sorted_ids, sorted_ids, strictly_increasing};
use crate::raft::quorum::majority::sort_ids;
use crate::raft::tracker::inflights::Inflights;
use crate::raft::tracker::state::{push_state, state_text, StateType};
use crate::raft::util::text::{decimal, push_decimal, push_str};

verus! {

broadcast use vstd::std_specs::hash::group_hash_axioms, vstd::set::group_set_axioms,
    vstd::seq_lib::group_seq_properties;

/// The progress of one follower, as the leader tracks it: the highest index
/// known to be replicated (`_match`), the next index to send, and the state
/// of replication. It is a state machine whose transitions are the methods
/// below.
pub struct Progress {
    pub _match: u64,
    pub next: u64,
    /// How the leader interacts with the follower: in `StateProbe` it sends
    /// at most one append per heartbeat interval; in `StateReplicate` it moves
    /// `next` ahead optimistically; in `StateSnapshot` it sends nothing while
    /// the snapshot is pending.
    pub state: StateType,
    /// In `StateSnapshot`, the index of the snapshot sent.
    pub pending_snapshot: u64,
    /// Whether the follower has been heard from recently.
    pub recent_active: bool,
    /// In `StateProbe`, whether a probe is out and unanswered: no more
    /// appends are sent until it is.
    pub probe_sent: bool,
    /// Whether the progress is tracked for a learner.
    pub is_leader: bool,
    /// The appends in flight; when it is full, no more are sent.
    pub inflights: Inflights,
}

/// Whether sending to the follower is throttled: a probe is out, the window
/// of appends in flight is full, or a snapshot is pending.
pub open spec fn paused(pr: &Progress) -> bool {
    match pr.state {
        StateType::StateProbe => pr.probe_sent,
        StateType::StateReplicate => pr.inflights@.len() == pr.inflights.capacity(),
        StateType::StateSnapshot => true,
    }
}

/// When sending to a follower is paused: while probing, exactly while a
/// probe is unanswered; while replicating, exactly when the window of
/// appends in flight is full, so that with room left the leader keeps
/// sending; while a snapshot is pending, always.
pub proof fn lemma_paused_cases(pr: &Progress)
    ensures
        pr.state == StateType::StateProbe ==> (paused(pr) <==> pr.probe_sent),
        pr.state == StateType::StateReplicate ==> (paused(pr) <==> pr.inflights@.len()
            == pr.inflights.capacity()),
        pr.state == StateType::StateReplicate && pr.inflights@.len() < pr.inflights.capacity()
            ==> !paused(pr),
        pr.state == StateType::StateSnapshot ==> paused(pr),
{
}

/// The flags that `to_string` prints after the state and the indexes.
pub open spec fn progress_flags_text(pr: &Progress) -> Seq<char> {
    (if pr.is_leader {
        " learner"@
    } else {
        Seq::empty()
    }) + (if paused(pr) {
        " paused"@
    } else {
        Seq::empty()
    }) + (if pr.pending_snapshot > 0 {
        " pendingSnap="@ + decimal(pr.pending_snapshot as nat)
    } else {
        Seq::empty()
    }) + (if !pr.recent_active {
        " inactive"@
    } else {
        Seq::empty()
    }) + (if pr.inflights@.len() > 0 {
        " inflight="@ + decimal(pr.inflights@.len()) + (if pr.inflights@.len()
            == pr.inflights.capacity() {
            "[full]"@
        } else {
            Seq::empty()
        })
    } else {
        Seq::empty()
    })
}

/// The textual form of a progress.
pub open spec fn progress_text(pr: &Progress) -> Seq<char> {
    state_text(pr.state) + " match="@ + decimal(pr._match as nat) + " next="@ + decimal(
        pr.next as nat,
    ) + progress_flags_text(pr)
}

/// The fields that no transition but the named ones touch.
pub open spec fn same_activity(a: &Progress, b: &Progress) -> bool {
    a.recent_active == b.recent_active && a.is_leader == b.is_leader
}

impl Progress {
    /// The progress is consistent.
    pub open spec fn wf(&self) -> bool {
        self.inflights.wf()
    }

    /// Moves to `state`, clearing the probe, the pending snapshot and the
    /// appends in flight.
    pub fn reset_state(&mut self, state: StateType)
        requires
            old(self).wf(),
        ensures
            final(self).wf(),
            final(self).state == state,
            !final(self).probe_sent,
            final(self).pending_snapshot == 0,
            final(self).inflights@ == Seq::<u64>::empty(),
            final(self).inflights.capacity() == old(self).inflights.capacity(),
            final(self)._match == old(self)._match,
            final(self).next == old(self).next,
            same_activity(&*final(self), &*old(self)),
    {
        self.probe_sent = false;
        self.pending_snapshot = 0;
        self.state = state;
        self.inflights.reset();
    }

    /// The follower has accepted an append: appends may be sent again without
    /// waiting.
    pub fn probe_acked(&mut self)
        ensures
            !final(self).probe_sent,
            final(self).state == old(self).state,
            final(self)._match == old(self)._match,
            final(self).next == old(self).next,
            final(self).pending_snapshot == old(self).pending_snapshot,
            final(self).inflights == old(self).inflights,
            same_activity(&*final(self), &*old(self)),
    {
        self.probe_sent = false;
    }

    /// Moves to `StateProbe`. `next` becomes `_match + 1`, or, coming from
    /// `StateSnapshot`, one past the pending snapshot if that is larger.
    pub fn become_probe(&mut self)
        requires
            old(self).wf(),
            old(self)._match < u64::MAX,
            old(self).state == StateType::StateSnapshot ==> old(self).pending_snapshot < u64::MAX,
        ensures
            final(self).wf(),
            final(self).state == StateType::StateProbe,
            !final(self).probe_sent,
            final(self).pending_snapshot == 0,
            final(self).inflights@ == Seq::<u64>::empty(),
            final(self).inflights.capacity() == old(self).inflights.capacity(),
            final(self)._match == old(self)._match,
            final(self).next == if old(self).state == StateType::StateSnapshot {
                vstd::math::max(old(self)._match + 1, old(self).pending_snapshot + 1)
            } else {
                old(self)._match + 1
            },
            same_activity(&*final(self), &*old(self)),
    {
        // Coming from StateSnapshot, the snapshot has reached the follower:
        // probe from just past it.
        if self.state == StateType::StateSnapshot {
            let pending_snapshot = self.pending_snapshot;
            self.reset_state(StateType::StateProbe);
            let a = self._match + 1;
            let b = pending_snapshot + 1;
            self.next = if a > b {
                a
            } else {
                b
            };
        } else {
            self.reset_state(StateType::StateProbe);
            self.next = self._match + 1;
        }
    }

    /// Moves to `StateReplicate`, with `next` at `_match + 1`.
    pub fn become_replicate(&mut self)
        requires
            old(self).wf(),
            old(self)._match < u64::MAX,
        ensures
            final(self).wf(),
            final(self).state == StateType::StateReplicate,
            !final(self).probe_sent,
            final(self).pending_snapshot == 0,
            final(self).inflights@ == Seq::<u64>::empty(),
            final(self).inflights.capacity() == old(self).inflights.capacity(),
            final(self)._match == old(self)._match,
            final(self).next == old(self)._match + 1,
            same_activity(&*final(self), &*old(self)),
    {
        self.reset_state(StateType::StateReplicate);
        self.next = self._match + 1;
    }

    /// Moves to `StateSnapshot` with `snapshot` as the pending snapshot.
    pub fn become_snapshot(&mut self, snapshot: u64)
        requires
            old(self).wf(),
        ensures
            final(self).wf(),
            final(self).state == StateType::StateSnapshot,
            !final(self).probe_sent,
            final(self).pending_snapshot == snapshot,
            final(self).inflights@ == Seq::<u64>::empty(),
            final(self).inflights.capacity() == old(self).inflights.capacity(),
            final(self)._match == old(self)._match,
            final(self).next == old(self).next,
            same_activity(&*final(self), &*old(self)),
    {
        self.reset_state(StateType::StateSnapshot);
        self.pending_snapshot = snapshot;
    }

    /// The follower has acknowledged index `n`. Returns false when that says
    /// nothing new (an outdated message); otherwise raises `_match` to `n`
    /// and clears the probe. `next` is raised past `n` either way.
    pub fn maybe_update(&mut self, n: u64) -> (updated: bool)
        requires
            n < u64::MAX,
        ensures
            updated == (old(self)._match < n),
            final(self)._match == vstd::math::max(old(self)._match as int, n as int),
            final(self).next == vstd::math::max(old(self).next as int, n + 1),
            final(self).probe_sent == (!updated && old(self).probe_sent),
            final(self).state == old(self).state,
            final(self).pending_snapshot == old(self).pending_snapshot,
            final(self).inflights == old(self).inflights,
            same_activity(&*final(self), &*old(self)),
    {
        let mut update = false;
        if self._match < n {
            self._match = n;
            update = true;
            self.probe_acked();
        }
        if self.next < n + 1 {
            self.next = n + 1;
        }
        update
    }

    /// Appends up to and including `n` are in flight: `next` becomes `n + 1`.
    pub fn optimistic_update(&mut self, n: u64)
        requires
            n < u64::MAX,
        ensures
            final(self).next == n + 1,
            final(self)._match == old(self)._match,
            final(self).state == old(self).state,
            final(self).probe_sent == old(self).probe_sent,
            final(self).pending_snapshot == old(self).pending_snapshot,
            final(self).inflights == old(self).inflights,
            same_activity(&*final(self), &*old(self)),
    {
        self.next = n + 1;
    }

    /// The follower rejected an append at index `rejected`; its last index is
    /// `last`. A rejection of what is known to be matched (in
    /// `StateReplicate`), or of anything but `next - 1` (otherwise), is stale:
    /// false, and nothing changes. Otherwise `next` is lowered, to `_match +
    /// 1` in `StateReplicate`, else to the smaller of `rejected` and `last +
    /// 1` but at least 1, and the probe is cleared.
    pub fn maybe_decr_to(&mut self, rejected: u64, last: u64) -> (r: bool)
        requires
            old(self).state == StateType::StateReplicate && rejected > old(self)._match
                ==> old(self)._match < u64::MAX,
            old(self).state != StateType::StateReplicate ==> old(self).next >= 1,
            old(self).state != StateType::StateReplicate && old(self).next - 1 == rejected
                ==> last < u64::MAX,
        ensures
            old(self).state == StateType::StateReplicate ==> r == (rejected > old(self)._match),
            old(self).state != StateType::StateReplicate ==> r == (old(self).next - 1 == rejected),
            !r ==> *final(self) == *old(self),
            r && old(self).state == StateType::StateReplicate ==> final(self).next == old(
                self,
            )._match + 1 && final(self).probe_sent == old(self).probe_sent,
            r && old(self).state != StateType::StateReplicate ==> final(self).next
                == vstd::math::max(vstd::math::min(rejected as int, last + 1), 1)
                && !final(self).probe_sent,
            final(self)._match == old(self)._match,
            final(self).state == old(self).state,
            final(self).pending_snapshot == old(self).pending_snapshot,
            final(self).inflights == old(self).inflights,
            same_activity(&*final(self), &*old(self)),
    {
        if self.state == StateType::StateReplicate {
            // The rejection must be stale if the progress has matched and
            // "rejected" is smaller than "match".
            if rejected <= self._match {
                return false;
            }
            // Directly decrease next to match + 1.
            self.next = self._match + 1;
            return true;
        }
        // The rejection must be stale if "rejected" does not match next - 1:
        // followers that are not replicating are probed one entry at a time.
        if self.next - 1 != rejected {
            return false;
        }
        self.next = if rejected < last + 1 {
            rejected
        } else {
            last + 1
        };
        if self.next < 1 {
            self.next = 1;
        }
        self.probe_sent = false;
        true
    }

    /// Whether sending to the follower is throttled.
    pub fn is_paused(&self) -> (r: bool)
        requires
            self.wf(),
        ensures
            r == paused(self),
            self.state == StateType::StateProbe ==> (r <==> self.probe_sent),
            self.state == StateType::StateReplicate ==> (r <==> self.inflights@.len()
                == self.inflights.capacity()),
            self.state == StateType::StateSnapshot ==> r,
    {
        match self.state {
            StateType::StateProbe => self.probe_sent,
            StateType::StateReplicate => self.inflights.full(),
            StateType::StateSnapshot => true,
        }
    }

    /// The progress as text, such as
    /// `StateReplicate match=1 next=2 inflight=1`.
    pub fn to_string(&self) -> (r: String)
        requires
            self.wf(),
        ensures
            r@ == progress_text(self),
    {
        let mut s = String::new();
        push_state(&mut s, self.state);
        push_str(&mut s, " match=");
        push_decimal(&mut s, self._match);
        push_str(&mut s, " next=");
        push_decimal(&mut s, self.next);
        let flags = self.flags_text();
        push_str(&mut s, flags.as_str());
        proof {
            assert(s@ =~= progress_text(self));
        }
        s
    }

    fn flags_text(&self) -> (r: String)
        requires
            self.wf(),
        ensures
            r@ == progress_flags_text(self),
    {
        let mut s = String::new();
        if self.is_leader {
            push_str(&mut s, " learner");
        }
        let ghost a = s@;
        assert(a =~= (if self.is_leader { " learner"@ } else { Seq::<char>::empty() }));
        if self.is_paused() {
            push_str(&mut s, " paused");
        }
        let ghost b = s@;
        assert(b =~= a + (if paused(self) { " paused"@ } else { Seq::<char>::empty() }));
        if self.pending_snapshot > 0 {
            push_str(&mut s, " pendingSnap=");
            push_decimal(&mut s, self.pending_snapshot);
        }
        let ghost c = s@;
        assert(c =~= b + (if self.pending_snapshot > 0 {
            " pendingSnap="@ + decimal(self.pending_snapshot as nat)
        } else {
            Seq::<char>::empty()
        }));
        if !self.recent_active {
            push_str(&mut s, " inactive");
        }
        let ghost d = s@;
        assert(d =~= c + (if !self.recent_active { " inactive"@ } else { Seq::<char>::empty() }));
        let tail = self.inflight_text();
        push_str(&mut s, tail.as_str());
        s
    }

    fn inflight_text(&self) -> (r: String)
        requires
            self.wf(),
        ensures
            r@ == (if self.inflights@.len() > 0 {
                " inflight="@ + decimal(self.inflights@.len()) + (if self.inflights@.len()
                    == self.inflights.capacity() {
                    "[full]"@
                } else {
                    Seq::empty()
                })
            } else {
                Seq::empty()
            }),
    {
        let mut s = String::new();
        let n = self.inflights.count();
        if n > 0 {
            push_str(&mut s, " inflight=");
            push_decimal(&mut s, n as u64);
            if self.inflights.full() {
                push_str(&mut s, "[full]");
            }
        }
        proof {
            if n > 0 {
                assert(s@ =~= " inflight="@ + decimal(self.inflights@.len()) + (if self.inflights@.len()
                    == self.inflights.capacity() {
                    "[full]"@
                } else {
                    Seq::empty()
                }));
            } else {
                assert(s@ =~= Seq::<char>::empty());
            }
        }
        s
    }
}

/// The progress of each peer, by id.
pub struct ProgressMap(pub HashMap<u64, Progress>);

/// The textual form of a progress map: one line per peer, in increasing
/// order of id, each the line's number, a colon and the id.
pub open spec fn progress_map_text(ids: Seq<u64>) -> Seq<char>
    decreases ids.len(),
{
    if ids.len() == 0 {
        Seq::empty()
    } else {
        progress_map_text(ids.drop_last()) + decimal((ids.len() - 1) as nat) + ": "@ + decimal(
            ids.last() as nat,
        ) + seq!['\n']
    }
}

/// The keys of a map, each once, in the order in which the map is walked.
pub fn keys_of(m: &HashMap<u64, Progress>) -> (r: Vec<u64>)
    ensures
        r@.no_duplicates(),
        r@.to_set() == m@.dom(),
{
    let mut r: Vec<u64> = Vec::new();
    for id in it: m.keys()
        invariant
            r@.len() == it.index(),
            it.seq() == spec_keys_iter(m).remaining(),
            forall|k: int| 0 <= k < it.index() ==> r@[k] == *it.seq()[k],
    {
        r.push(*id);
    }
    proof {
        let s = spec_keys_iter(m).remaining().unref();
        assert(r@ =~= s);
    }
    r
}

impl ProgressMap {
    /// The map as text.
    pub fn to_string(&self) -> (r: String)
        ensures
            r@ == progress_map_text(sorted_ids(self.0@.dom())),
    {
        let keys = sort_ids(&keys_of(&self.0));
        proof {
            lemma_sorted_ids(keys@, self.0@.dom());
        }
        let mut s = String::new();
        let mut i: usize = 0;
        while i < keys.len()
            invariant
                i <= keys@.len(),
                s@ == progress_map_text(keys@.take(i as int)),
            decreases keys@.len() - i,
        {
            push_decimal(&mut s, i as u64);
            push_str(&mut s, ": ");
            push_decimal(&mut s, keys[i]);
            crate::raft::util::text::push_char(&mut s, '\n');
            proof {
                assert(keys@.take(i as int + 1).drop_last() =~= keys@.take(i as int));
                assert(s@ =~= progress_map_text(keys@.take(i as int + 1)));
            }
            i = i + 1;
        }
        proof {
            assert(keys@.take(keys@.len() as int) =~= keys@);
        }
        s
    }
}

impl Default for ProgressMap {
    fn default() -> (r: Self)
        ensures
            r.0@ == Map::<u64, Progress>::empty(),
    {
        ProgressMap(HashMap::new())
    }
}

} // verus!
