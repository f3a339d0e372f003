//! The part of the raft log not yet written to stable storage.
use vstd::prelude::*;
use crate::raft::raftpb::raft::{copy_entries, views, Entry, Snapshot};

verus! {

broadcast use vstd::seq_lib::group_seq_properties;

/// The entries that have not been written to storage yet, and a snapshot
/// that has not been applied to it yet. `entries[i]` is the entry at index
/// `i + offset`. The offset may be below the last index in storage: then the
/// next write to storage truncates its log first.
pub struct Unstable {
    /// The incoming snapshot, if any.
    pub snapshot: Option<Snapshot>,
    /// The entries not yet written to storage.
    pub entries: Vec<Entry>,
    pub offset: u64,
}

impl Unstable {
    /// The entries sit at their indexes, there is room for one more index,
    /// and a pending snapshot ends before the entries start.
    pub open spec fn wf(&self) -> bool {
        &&& forall|k: int|
            0 <= k < self.entries@.len() ==> (#[trigger] self.entries@[k]).index == self.offset + k
        &&& self.offset + self.entries@.len() <= u64::MAX
        &&& self.snapshot matches Some(s) ==> s.metadata.index < self.offset
    }

    /// The first index, if a snapshot is pending: the one after it.
    pub open spec fn first_index_spec(&self) -> Option<u64> {
        match self.snapshot {
            Some(s) => Some((s.metadata.index + 1) as u64),
            None => None,
        }
    }

    /// The last index: that of the last entry, or else that of the pending
    /// snapshot.
    pub open spec fn last_index_spec(&self) -> Option<u64> {
        if self.entries@.len() > 0 {
            Some((self.offset + self.entries@.len() - 1) as u64)
        } else {
            match self.snapshot {
                Some(s) => Some(s.metadata.index),
                None => None,
            }
        }
    }

    /// The term of the entry at `i`, if it is known here.
    pub open spec fn term_spec(&self, i: u64) -> Option<u64> {
        if i < self.offset {
            match self.snapshot {
                Some(s) => if s.metadata.index == i {
                    Some(s.metadata.term)
                } else {
                    None
                },
                None => None,
            }
        } else {
            match self.last_index_spec() {
                Some(last) => if i > last {
                    None
                } else {
                    Some(self.entries@[i - self.offset].term)
                },
                None => None,
            }
        }
    }

    /// The index of the first entry, if a snapshot is pending.
    pub fn maybe_first_index(&self) -> (r: Option<u64>)
        requires
            self.wf(),
        ensures
            r == self.first_index_spec(),
    {
        match &self.snapshot {
            Some(snapshot) => Some(snapshot.metadata.index + 1),
            None => None,
        }
    }

    /// The last index, if there is an unstable entry or a snapshot.
    pub fn maybe_last_index(&self) -> (r: Option<u64>)
        requires
            self.wf(),
        ensures
            r == self.last_index_spec(),
    {
        if self.entries.len() != 0 {
            return Some(self.offset + self.entries.len() as u64 - 1);
        }
        match &self.snapshot {
            Some(snapshot) => Some(snapshot.metadata.index),
            None => None,
        }
    }

    /// The term of the entry at `i`, if there is one.
    pub fn maybe_term(&self, i: u64) -> (r: Option<u64>)
        requires
            self.wf(),
        ensures
            r == self.term_spec(i),
    {
        if i < self.offset {
            match &self.snapshot {
                Some(snapshot) => {
                    if snapshot.metadata.index == i {
                        return Some(snapshot.metadata.term);
                    }
                },
                None => {},
            }
            return None;
        }
        match self.maybe_last_index() {
            Some(index) => {
                if i > index {
                    None
                } else {
                    let n = self.entries.len();
                    assert(i - self.offset < n);
                    Some(self.entries[(i - self.offset) as usize].term)
                }
            },
            None => None,
        }
    }

    /// The entries up to `i` have been written to storage: if the entry at
    /// `i` is unstable and has term `t`, they are dropped from here.
    pub fn stable_to(&mut self, i: u64, t: u64)
        requires
            old(self).wf(),
        ensures
            final(self).wf(),
            final(self).snapshot == old(self).snapshot,
            old(self).term_spec(i) == Some(t) && i >= old(self).offset ==> {
                &&& final(self).offset == i + 1
                &&& views(final(self).entries@) == views(old(self).entries@).skip(
                    i + 1 - old(self).offset,
                )
            },
            !(old(self).term_spec(i) == Some(t) && i >= old(self).offset) ==> final(self).offset
                == old(self).offset && final(self).entries == old(self).entries,
    {
        if let Some(gt) = self.maybe_term(i) {
            // If i < offset, the term matched the snapshot: only the
            // unstable entries are dropped, when the term matches one of
            // them.
            if gt == t && i >= self.offset {
                let n = self.entries.len();
                assert(i + 1 - self.offset <= n);
                let start = (i + 1 - self.offset) as usize;
                let ghost old_entries = self.entries@;
                let rest = self.entries.split_off(start);
                self.entries = rest;
                self.offset = i + 1;
                proof {
                    assert(views(self.entries@) =~= views(old_entries).skip(start as int));
                }
            }
        }
    }

    /// The snapshot at `i` has been written to storage: if it is the pending
    /// one, it is dropped.
    pub fn stable_snap_to(&mut self, i: u64)
        requires
            old(self).wf(),
        ensures
            final(self).wf(),
            final(self).offset == old(self).offset,
            final(self).entries == old(self).entries,
            (old(self).snapshot matches Some(s) && s.metadata.index == i) ==> final(self).snapshot is None,
            !(old(self).snapshot matches Some(s) && s.metadata.index == i) ==> final(self).snapshot
                == old(self).snapshot,
    {
        let mut drop = false;
        match &self.snapshot {
            Some(snapshot) => {
                if snapshot.metadata.index == i {
                    drop = true;
                }
            },
            None => {},
        }
        if drop {
            self.snapshot = None;
        }
    }

    /// Takes `s` as the pending snapshot, dropping the unstable entries.
    pub fn restore(&mut self, s: Snapshot)
        requires
            old(self).wf(),
            s.metadata.index < u64::MAX,
        ensures
            final(self).wf(),
            final(self).offset == s.metadata.index + 1,
            final(self).entries@.len() == 0,
            final(self).snapshot == Some(s),
    {
        self.offset = s.metadata.index + 1;
        self.entries.clear();
        self.snapshot = Some(s);
    }

    /// Appends `ents`, whose indexes follow one another: directly when they
    /// follow the unstable entries, replacing all of them when they start at
    /// or before the offset, and replacing those from the first new index on
    /// otherwise.
    pub fn truncate_and_append(&mut self, ents: Vec<Entry>)
        requires
            old(self).wf(),
            ents@.len() > 0,
            forall|k: int| 0 <= k < ents@.len() ==> (#[trigger] ents@[k]).index == ents@[0].index + k,
            ents@[0].index + ents@.len() <= u64::MAX,
            ents@[0].index <= old(self).offset + old(self).entries@.len(),
            old(self).snapshot matches Some(s) ==> s.metadata.index < ents@[0].index,
        ensures
            final(self).wf(),
            final(self).snapshot == old(self).snapshot,
            final(self).offset == vstd::math::min(old(self).offset as int, ents@[0].index as int),
            views(final(self).entries@) == if ents@[0].index <= old(self).offset {
                views(ents@)
            } else {
                views(old(self).entries@).take(ents@[0].index - old(self).offset) + views(ents@)
            },
    {
        let after = ents[0].index;
        let ghost e0 = ents@;
        if after == self.offset + self.entries.len() as u64 {
            // after is the next index in the entries: directly append
            let ghost old_entries = self.entries@;
            let mut ents = ents;
            let ghost e1 = ents@;
            self.entries.append(&mut ents);
            proof {
                assert(views(old_entries).take(after - self.offset) =~= views(old_entries));
                assert(views(self.entries@) =~= views(old_entries) + views(e1));
            }
        } else if after <= self.offset {
            // The log is being truncated to before the offset: take the
            // new entries in place of the old.
            self.offset = after;
            self.entries = ents;
        } else {
            // truncate to after and append
            let n = self.entries.len();
            assert(after - self.offset < n);
            let keep = (after - self.offset) as usize;
            let mut kept = copy_entries(vstd::slice::slice_subrange(self.entries.as_slice(), 0, keep));
            let ghost k1 = kept@;
            let mut ents = ents;
            let ghost e1 = ents@;
            kept.append(&mut ents);
            self.entries = kept;
            proof {
                assert(views(self.entries@) =~= views(k1) + views(e1));
                assert(views(k1) =~= views(old(self).entries@).take(keep as int));
            }
        }
        proof {
            let v = if e0[0].index <= old(self).offset {
                views(e0)
            } else {
                views(old(self).entries@).take(e0[0].index - old(self).offset) + views(e0)
            };
            assert forall|k: int| 0 <= k < self.entries@.len() implies (
            #[trigger] self.entries@[k]).index == self.offset + k by {
                assert(views(self.entries@)[k] == self.entries@[k]@);
                assert(v[k] == self.entries@[k]@);
                if e0[0].index > old(self).offset && k < e0[0].index - old(self).offset {
                    assert(v[k] == old(self).entries@[k]@);
                } else if e0[0].index > old(self).offset {
                    assert(v[k] == e0[k - (e0[0].index - old(self).offset)]@);
                } else {
                    assert(v[k] == e0[k]@);
                }
            }
        }
    }

    /// The unstable entries from `lo` up to, not including, `hi`.
    pub fn slice(&self, lo: u64, hi: u64) -> (r: Vec<Entry>)
        requires
            self.wf(),
            self.offset <= lo <= hi <= self.offset + self.entries@.len(),
        ensures
            views(r@) == views(self.entries@).subrange(lo - self.offset, hi - self.offset),
    {
        let n = self.entries.len();
        assert(hi - self.offset <= n);
        let ents = copy_entries(
            vstd::slice::slice_subrange(
                self.entries.as_slice(),
                (lo - self.offset) as usize,
                (hi - self.offset) as usize,
            ),
        );
        proof {
            assert(views(ents@) =~= views(self.entries@).subrange(lo - self.offset, hi - self.offset));
        }
        ents
    }
}

impl Default for Unstable {
    fn default() -> (r: Self)
        ensures
            r.wf(),
            r.snapshot is None,
            r.entries@.len() == 0,
            r.offset == 0,
    {
        Unstable { snapshot: None, entries: Vec::new(), offset: 0 }
    }
}

} // verus!
