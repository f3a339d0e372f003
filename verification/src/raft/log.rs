//! The raft log: the entries in stable storage followed by the unstable ones.
//!
//! ```text
//!  snapshot/first.....applied....committed....stabled.....last
//!  --------|------------------------------------------------|
//!                            log entries
//! ```
use vstd::prelude::*;
use crate::raft::raftpb::raft::{copy_entries, views, Entry, EntryView, Snapshot};
use crate::raft::raft::NO_LIMIT;
use crate::raft::storage::{Storage, StorageError};
use crate::raft::unstable::Unstable;
use crate::raft::util::{lemma_limit_len_all, limit_len_ok, limit_size, prefix_size, sizable};
use crate::raft::util::text::{push_decimal, push_str, decimal};

verus! {

broadcast use vstd::seq_lib::group_seq_properties;

/// The errors of the raft log.
#[derive(Debug, Clone, Copy, PartialEq, Eq, Structural)]
pub enum RaftLogError {
    FromStorage(StorageError),
}

/// The raft log over the storage `storage`.
pub struct RaftLog<T: Storage> {
    /// All stable entries since the last snapshot.
    pub storage: T,
    /// The unstable entries and snapshot, to be saved into storage.
    pub unstable: Unstable,
    /// The highest log position known to be in stable storage on a quorum
    /// of nodes.
    pub committed: u64,
    /// The highest log position that the application has been told to apply
    /// to its state machine. Invariant: `applied <= committed`.
    pub applied: u64,
    /// Entries up to `stabled` are persisted to storage.
    pub stabled: u64,
    /// Entries not yet compacted.
    pub entries: Vec<Entry>,
    /// The most bytes of entries that `next_ents` returns at once.
    pub max_next_ents_size: u64,
}

/// The view of the entries `from..to` of a log, in order.
pub open spec fn range_view<T: Storage>(l: &RaftLog<T>, lo: u64, hi: u64) -> Seq<EntryView> {
    Seq::new((hi - lo) as nat, |k: int| l.entry_spec((lo + k) as u64))
}

impl<T: Storage> RaftLog<T> {
    /// The log is consistent: `applied <= committed`, the storage's entries
    /// start no later than just past the applied index and not after the
    /// unstable ones end, a pending snapshot is committed, and the storage
    /// holds every entry of the log before the unstable ones: where no
    /// unstable entry or snapshot is pending, the log is the storage's.
    pub open spec fn wf(&self) -> bool {
        &&& self.storage.inv()
        &&& self.unstable.wf()
        &&& self.applied <= self.committed
        &&& self.committed < u64::MAX
        &&& self.storage.first_index_spec() <= self.applied + 1
        &&& self.storage.first_index_spec() <= self.unstable.offset + self.unstable.entries@.len()
        &&& self.unstable.snapshot matches Some(s) ==> s.metadata.index <= self.committed
        &&& self.first_index_spec() < self.unstable.offset ==> self.unstable.offset
            <= self.storage.last_index_spec() + 1
        &&& self.unstable.entries@.len() == 0 && self.unstable.snapshot is None
            ==> self.unstable.offset == self.storage.last_index_spec() + 1
    }

    /// The index of the first entry of the log.
    pub open spec fn first_index_spec(&self) -> u64 {
        match self.unstable.first_index_spec() {
            Some(i) => i,
            None => self.storage.first_index_spec(),
        }
    }

    /// The index of the last entry of the log.
    pub open spec fn last_index_spec(&self) -> u64 {
        match self.unstable.last_index_spec() {
            Some(i) => i,
            None => self.storage.last_index_spec(),
        }
    }

    /// The term of the entry at `i`, from the entry before the first one to
    /// the last one; 0 outside that range or where it is not known.
    pub open spec fn term_spec(&self, i: u64) -> u64 {
        if i < self.first_index_spec() - 1 || i > self.last_index_spec() {
            0
        } else {
            match self.unstable.term_spec(i) {
                Some(t) => t,
                None => if self.storage.first_index_spec() - 1 <= i
                    <= self.storage.last_index_spec() {
                    self.storage.term_spec(i)
                } else {
                    0
                },
            }
        }
    }

    /// The entry at `i`: unstable from the offset on, in storage before it.
    pub open spec fn entry_spec(&self, i: u64) -> EntryView {
        if i >= self.unstable.offset {
            self.unstable.entries@[i - self.unstable.offset]@
        } else {
            self.storage.entry_spec(i)
        }
    }

    /// The first index of the entries `ents` that conflicts with the log, or
    /// else the first that is new, or else 0: an entry conflicts when the log
    /// has a different term at its index.
    pub open spec fn conflict_spec(&self, ents: Seq<EntryView>) -> u64
        decreases ents.len(),
    {
        if ents.len() == 0 {
            0
        } else if self.term_spec(ents[0].index) != ents[0].term {
            ents[0].index
        } else {
            self.conflict_spec(ents.drop_first())
        }
    }

    /// The entries `lo..hi` are held here: those before the offset by the
    /// storage, those after it by the unstable part.
    pub open spec fn holds(&self, lo: u64, hi: u64) -> bool {
        &&& (lo >= self.first_index_spec() && lo < self.unstable.offset ==> vstd::math::min(
            hi as int,
            self.unstable.offset as int,
        ) <= self.storage.last_index_spec() + 1)
        &&& (hi > self.unstable.offset ==> hi <= self.unstable.offset
            + self.unstable.entries@.len())
    }

    /// What `slice(lo, hi, ..)` gives before the size limit: nothing when
    /// `lo == hi` or when the first of them is gone from storage, otherwise
    /// the entries `lo..hi`.
    pub open spec fn slice_spec(&self, lo: u64, hi: u64) -> Seq<EntryView> {
        if lo == hi || (lo < self.unstable.offset && lo < self.storage.first_index_spec()) {
            Seq::empty()
        } else {
            range_view(self, lo, hi)
        }
    }

    /// A consistent log starts at 1 or later, leaves room for one more
    /// index, and does not end before it starts.
    pub proof fn lemma_wf(&self)
        requires
            self.wf(),
        ensures
            1 <= self.first_index_spec() <= self.last_index_spec() + 1,
            self.last_index_spec() < u64::MAX,
            self.storage.first_index_spec() <= self.storage.last_index_spec() + 1,
            self.storage.last_index_spec() < u64::MAX,
            self.storage.first_index_spec() >= 1,
    {
        self.storage.lemma_inv();
    }

    /// Where the log's bounds come from: with no snapshot pending it starts
    /// where the storage does; it ends with the last unstable entry, or,
    /// with no unstable entry and no snapshot pending, where the storage
    /// ends; and it never ends before it starts.
    pub proof fn lemma_index_sources(&self)
        requires
            self.wf(),
        ensures
            self.unstable.snapshot is None ==> self.first_index_spec()
                == self.storage.first_index_spec(),
            self.unstable.entries@.len() > 0 ==> self.last_index_spec() == self.unstable.offset
                + self.unstable.entries@.len() - 1,
            self.unstable.entries@.len() == 0 && self.unstable.snapshot is None
                ==> self.last_index_spec() == self.storage.last_index_spec(),
            self.first_index_spec() <= self.last_index_spec() + 1,
    {
        self.lemma_wf();
    }

    /// Every entry of a consistent log up to its last one is held either by
    /// the storage or by the unstable part.
    pub proof fn lemma_holds(&self, lo: u64, hi: u64)
        requires
            self.wf(),
            hi <= self.last_index_spec() + 1,
        ensures
            self.holds(lo, hi),
    {
    }

    pub fn new(storage: T) -> (r: Self)
        requires
            storage.inv(),
        ensures
            r.wf(),
            r.storage == storage,
            r.committed == storage.first_index_spec() - 1,
            r.applied == storage.first_index_spec() - 1,
            r.unstable.offset == storage.last_index_spec() + 1,
            r.unstable.entries@.len() == 0,
            r.unstable.snapshot is None,
            r.max_next_ents_size == NO_LIMIT,
    {
        Self::new_log_with_size(storage, NO_LIMIT)
    }

    /// A log over `storage` that recovers to the state in which everything
    /// in storage is committed and applied, and whose `next_ents` returns at
    /// most `max_next_ents_size` bytes at once.
    pub fn new_log_with_size(storage: T, max_next_ents_size: u64) -> (r: Self)
        requires
            storage.inv(),
        ensures
            r.wf(),
            r.storage == storage,
            r.committed == storage.first_index_spec() - 1,
            r.applied == storage.first_index_spec() - 1,
            r.unstable.offset == storage.last_index_spec() + 1,
            r.unstable.entries@.len() == 0,
            r.unstable.snapshot is None,
            r.stabled == 0,
            r.entries@.len() == 0,
            r.max_next_ents_size == max_next_ents_size,
    {
        proof {
            storage.lemma_inv();
        }
        let mut log = Self {
            storage,
            unstable: Unstable::default(),
            committed: 0,
            applied: 0,
            stabled: 0,
            entries: Vec::new(),
            max_next_ents_size,
        };
        let first_index = match log.storage.first_index() {
            Ok(i) => i,
            Err(_) => 1,
        };
        let last_index = match log.storage.last_index() {
            Ok(i) => i,
            Err(_) => 0,
        };
        log.unstable.offset = last_index + 1;
        log.committed = first_index - 1;
        log.applied = first_index - 1;
        log
    }

    /// The index of the first entry of the log.
    pub fn first_index(&self) -> (r: u64)
        requires
            self.wf(),
        ensures
            r == self.first_index_spec(),
    {
        if let Some(i) = self.unstable.maybe_first_index() {
            return i;
        }
        match self.storage.first_index() {
            Ok(i) => i,
            Err(_) => 0,
        }
    }

    /// The index of the last entry of the log.
    pub fn last_index(&self) -> (r: u64)
        requires
            self.wf(),
        ensures
            r == self.last_index_spec(),
    {
        if let Some(index) = self.unstable.maybe_last_index() {
            index
        } else {
            match self.storage.last_index() {
                Ok(i) => i,
                Err(_) => 0,
            }
        }
    }

    /// The term of the entry at `i`; 0 outside the log or where it is not
    /// known. It is never an error.
    pub fn term(&self, i: u64) -> (r: Result<u64, RaftLogError>)
        requires
            self.wf(),
        ensures
            r == Ok::<u64, RaftLogError>(self.term_spec(i)),
    {
        proof {
            self.lemma_wf();
        }
        // the valid range is [index of dummy entry, last index]
        let dummy_index = self.first_index() - 1;
        if i < dummy_index || i > self.last_index() {
            return Ok(0);
        }
        if let Some(t) = self.unstable.maybe_term(i) {
            return Ok(t);
        }
        match self.storage.term(i) {
            Ok(t) => Ok(t),
            Err(_) => Ok(0),
        }
    }

    /// The term of the last entry.
    pub fn last_term(&self) -> (r: u64)
        requires
            self.wf(),
        ensures
            r == self.term_spec(self.last_index_spec()),
    {
        match self.term(self.last_index()) {
            Ok(t) => t,
            Err(_) => 0,
        }
    }

    /// Whether the entry at `i` has term `term`.
    pub fn match_term(&self, i: u64, term: u64) -> (r: bool)
        requires
            self.wf(),
        ensures
            r == (self.term_spec(i) == term),
    {
        match self.term(i) {
            Ok(t) => t == term,
            Err(_) => false,
        }
    }

    /// Whether a log whose last entry has index `lasti` and term `term` is
    /// at least as up to date as this one: a later last term wins; with the
    /// same last term, the longer log wins; equal logs are up to date.
    pub fn is_up_to_date(&self, lasti: u64, term: u64) -> (r: bool)
        requires
            self.wf(),
        ensures
            r == (term > self.term_spec(self.last_index_spec()) || (term == self.term_spec(
                self.last_index_spec(),
            ) && lasti >= self.last_index_spec())),
    {
        term > self.last_term() || (term == self.last_term() && lasti >= self.last_index())
    }

    /// The index of the first of `ents` that conflicts with the log (same
    /// index, different term); if none does, the index of the first that is
    /// new; if all are already there, 0.
    pub fn find_conflict(&self, ents: &[Entry]) -> (r: u64)
        requires
            self.wf(),
        ensures
            r == self.conflict_spec(views(ents@)),
    {
        let ghost e = views(ents@);
        let mut i: usize = 0;
        while i < ents.len()
            invariant
                self.wf(),
                e == views(ents@),
                i <= ents@.len(),
                self.conflict_spec(e) == self.conflict_spec(e.skip(i as int)),
            decreases ents@.len() - i,
        {
            let ent = &ents[i];
            proof {
                assert(e.skip(i as int)[0] == ents@[i as int]@);
                assert(e.skip(i as int).drop_first() =~= e.skip(i as int + 1));
            }
            if !self.match_term(ent.index, ent.term) {
                return ent.index;
            }
            i = i + 1;
        }
        proof {
            assert(e.skip(i as int) =~= Seq::<EntryView>::empty());
        }
        0
    }

    /// Raises the commit index to `to_commit`; it never goes down.
    pub fn commit_to(&mut self, to_commit: u64)
        requires
            old(self).wf(),
            old(self).committed < to_commit ==> to_commit <= old(self).last_index_spec(),
        ensures
            final(self).wf(),
            final(self).committed == vstd::math::max(old(self).committed as int, to_commit as int),
            final(self).applied == old(self).applied,
            final(self).storage == old(self).storage,
            final(self).unstable == old(self).unstable,
    {
        proof {
            self.lemma_wf();
        }
        // never decrease commit
        if self.committed < to_commit {
            self.committed = to_commit;
        }
    }

    /// Records that the application has applied the entries up to `i`; 0
    /// changes nothing.
    pub fn applied_to(&mut self, i: u64)
        requires
            old(self).wf(),
            i != 0 ==> old(self).applied <= i <= old(self).committed,
        ensures
            final(self).wf(),
            final(self).applied == if i == 0 {
                old(self).applied
            } else {
                i
            },
            final(self).committed == old(self).committed,
            final(self).storage == old(self).storage,
            final(self).unstable == old(self).unstable,
    {
        if i == 0 {
            return;
        }
        self.applied = i;
    }

    /// The entries up to `i`, of term `t`, have been written to storage. Where
    /// the unstable entry at `i` has term `t`, the storage must hold the
    /// entries up to `i`, and, where none is left unstable and no snapshot is
    /// pending, end at `i`.
    pub fn stable_to(&mut self, i: u64, t: u64)
        requires
            old(self).wf(),
            old(self).unstable.term_spec(i) == Some(t) && i >= old(self).unstable.offset ==> {
                &&& i <= old(self).storage.last_index_spec()
                &&& i + 1 == old(self).unstable.offset + old(self).unstable.entries@.len()
                    && old(self).unstable.snapshot is None ==> old(
                    self,
                ).storage.last_index_spec() == i
            },
        ensures
            final(self).wf(),
            final(self).committed == old(self).committed,
            final(self).applied == old(self).applied,
            final(self).storage == old(self).storage,
            final(self).unstable.snapshot == old(self).unstable.snapshot,
            old(self).unstable.term_spec(i) == Some(t) && i >= old(self).unstable.offset ==> {
                &&& final(self).unstable.offset == i + 1
                &&& views(final(self).unstable.entries@) == views(old(self).unstable.entries@).skip(
                    i + 1 - old(self).unstable.offset,
                )
            },
            !(old(self).unstable.term_spec(i) == Some(t) && i >= old(self).unstable.offset)
                ==> final(self).unstable == old(self).unstable,
    {
        self.unstable.stable_to(i, t);
        proof {
            assert(views(self.unstable.entries@).len() == self.unstable.entries@.len());
            assert(views(old(self).unstable.entries@).len() == old(self).unstable.entries@.len());
        }
    }

    /// The snapshot at `i` has been written to storage. Where the pending
    /// snapshot is at `i`, the storage must reach up to the unstable entries,
    /// and, where there are none, end just before the unstable offset.
    pub fn stable_snap_to(&mut self, i: u64)
        requires
            old(self).wf(),
            old(self).unstable.snapshot matches Some(s) && s.metadata.index == i ==> {
                &&& old(self).unstable.offset <= old(self).storage.last_index_spec() + 1
                &&& old(self).unstable.entries@.len() == 0 ==> old(self).unstable.offset
                    == old(self).storage.last_index_spec() + 1
            },
        ensures
            final(self).wf(),
            final(self).committed == old(self).committed,
            final(self).applied == old(self).applied,
            final(self).storage == old(self).storage,
            final(self).unstable.offset == old(self).unstable.offset,
            final(self).unstable.entries == old(self).unstable.entries,
            (old(self).unstable.snapshot matches Some(s) && s.metadata.index == i) ==> final(self).unstable.snapshot is None,
            !(old(self).unstable.snapshot matches Some(s) && s.metadata.index == i) ==> final(self).unstable.snapshot == old(self).unstable.snapshot,
    {
        self.unstable.stable_snap_to(i)
    }

    /// Appends `ents`, whose indexes follow one another, replacing the
    /// entries from the first of them on; returns the new last index.
    pub fn append(&mut self, ents: &[Entry]) -> (r: u64)
        requires
            old(self).wf(),
            forall|k: int| 0 <= k < ents@.len() ==> (#[trigger] ents@[k]).index == ents@[0].index + k,
            ents@.len() > 0 ==> {
                &&& ents@[0].index >= 1
                &&& ents@[0].index - 1 >= old(self).committed
                &&& ents@[0].index <= old(self).unstable.offset + old(self).unstable.entries@.len()
                &&& ents@[0].index + ents@.len() <= u64::MAX
            },
        ensures
            final(self).wf(),
            r == final(self).last_index_spec(),
            final(self).committed == old(self).committed,
            final(self).applied == old(self).applied,
            final(self).storage == old(self).storage,
            ents@.len() == 0 ==> *final(self) == *old(self),
            ents@.len() > 0 ==> {
                &&& final(self).last_index_spec() == ents@[0].index + ents@.len() - 1
                &&& final(self).first_index_spec() == old(self).first_index_spec()
                &&& forall|i: u64|
                    ents@[0].index <= i <= final(self).last_index_spec() ==> #[trigger] final(self).entry_spec(i) == ents@[i - ents@[0].index]@
                &&& forall|i: u64|
                    ents@[0].index <= i <= final(self).last_index_spec() ==> #[trigger] final(self).term_spec(i) == ents@[i - ents@[0].index].term
                &&& forall|i: u64|
                    i < ents@[0].index && i <= old(self).last_index_spec() ==> #[trigger] final(self).term_spec(i)
                        == old(self).term_spec(i)
                &&& final(self).slice_spec(ents@[0].index, (final(self).last_index_spec() + 1) as u64)
                    == views(ents@)
                &&& final(self).unstable.offset == vstd::math::min(
                    old(self).unstable.offset as int,
                    ents@[0].index as int,
                )
                &&& forall|i: u64|
                    i < ents@[0].index ==> #[trigger] final(self).entry_spec(i) == old(
                        self,
                    ).entry_spec(i)
            },
    {
        proof {
            self.lemma_wf();
        }
        if ents.len() == 0 {
            return self.last_index();
        }
        let ghost old_self = *self;
        let after = ents[0].index - 1;
        let v = copy_entries(ents);
        proof {
            assert(views(v@).len() == v@.len());
            assert(views(ents@).len() == ents@.len());
            assert forall|k: int| 0 <= k < v@.len() implies (#[trigger] v@[k]).index == v@[0].index + k by {
                assert(views(v@)[k] == v@[k]@);
                assert(views(ents@)[k] == ents@[k]@);
                assert(views(v@)[0] == v@[0]@);
                assert(views(ents@)[0] == ents@[0]@);
            }
            assert(views(v@)[0] == v@[0]@);
            assert(views(ents@)[0] == ents@[0]@);
        }
        self.unstable.truncate_and_append(v);
        proof {
            self.lemma_append_result(old_self, views(ents@));
            let lo = ents@[0].index;
            let hi = (self.last_index_spec() + 1) as u64;
            assert(views(ents@).len() == ents@.len());
            assert forall|k: int| 0 <= k < ents@.len() implies #[trigger] range_view(self, lo, hi)[k]
                == views(ents@)[k] by {
                assert(ents@[k].index == lo + k);
                assert(self.entry_spec((lo + k) as u64) == views(ents@)[(lo + k) - lo]);
            }
            assert(range_view(self, lo, hi) =~= views(ents@));
        }
        self.last_index()
    }

    /// What `find_conflict` finds for entries that follow `base`: 0 when all
    /// agree with the log; otherwise one of their indexes, before which all
    /// agree and at which the log disagrees.
    pub proof fn lemma_conflict(&self, e: Seq<EntryView>, base: u64)
        requires
            forall|k: int| 0 <= k < e.len() ==> (#[trigger] e[k]).index == base + 1 + k,
            base + e.len() <= u64::MAX,
        ensures
            self.conflict_spec(e) == 0 ==> forall|k: int|
                0 <= k < e.len() ==> self.term_spec((#[trigger] e[k]).index) == e[k].term,
            self.conflict_spec(e) != 0 ==> {
                &&& base + 1 <= self.conflict_spec(e) <= base + e.len()
                &&& self.term_spec(self.conflict_spec(e)) != e[self.conflict_spec(e) - base - 1].term
                &&& forall|k: int|
                    0 <= k < self.conflict_spec(e) - base - 1 ==> self.term_spec(
                        (#[trigger] e[k]).index,
                    ) == e[k].term
            },
        decreases e.len(),
    {
        if e.len() > 0 && self.term_spec(e[0].index) == e[0].term {
            let t = e.drop_first();
            assert forall|k: int| 0 <= k < t.len() implies (#[trigger] t[k]).index == (base + 1) + 1 + k by {
                assert(t[k] == e[k + 1]);
            }
            self.lemma_conflict(t, (base + 1) as u64);
            if self.conflict_spec(e) == 0 {
                assert forall|k: int| 0 <= k < e.len() implies self.term_spec((#[trigger] e[k]).index)
                    == e[k].term by {
                    if k > 0 {
                        assert(e[k] == t[k - 1]);
                    }
                }
            } else {
                let c = self.conflict_spec(e);
                assert(e[c - base - 1] == t[c - (base + 1) - 1]);
                assert forall|k: int| 0 <= k < c - base - 1 implies self.term_spec(
                    (#[trigger] e[k]).index,
                ) == e[k].term by {
                    if k > 0 {
                        assert(e[k] == t[k - 1]);
                    }
                }
            }
        }
    }

    /// Appends `ents`, which follow the entry at `index` of term
    /// `log_term`, and raises the commit index towards `committed`, if the
    /// log has that entry: then the entries from the first one that conflicts
    /// are replaced, and the index of the last new entry is returned.
    /// Otherwise nothing changes and the result is `None`.
    #[verifier::rlimit(40)]
    pub fn maybe_append(&mut self, index: u64, log_term: u64, committed: u64, ents: &[Entry]) -> (r:
        Option<u64>)
        requires
            old(self).wf(),
            old(self).term_spec(index) == log_term ==> {
                let ci = old(self).conflict_spec(views(ents@));
                let target = vstd::math::min(committed as int, index + ents@.len());
                &&& forall|k: int| 0 <= k < ents@.len() ==> (#[trigger] ents@[k]).index == index + 1 + k
                &&& index + ents@.len() < u64::MAX
                &&& ci != 0 ==> old(self).committed < ci <= old(self).unstable.offset + old(
                    self,
                ).unstable.entries@.len()
                &&& target > old(self).committed ==> target <= if ci == 0 {
                    old(self).last_index_spec() as int
                } else {
                    index + ents@.len()
                }
            },
        ensures
            final(self).wf(),
            old(self).term_spec(index) != log_term ==> r is None && *final(self) == *old(self),
            old(self).term_spec(index) == log_term ==> {
                let ci = old(self).conflict_spec(views(ents@));
                let lastnewi = index + ents@.len();
                &&& r == Some((index + ents@.len()) as u64)
                &&& final(self).committed == vstd::math::max(
                    old(self).committed as int,
                    vstd::math::min(committed as int, lastnewi),
                )
                &&& final(self).applied == old(self).applied
                &&& final(self).storage == old(self).storage
                &&& ci == 0 ==> final(self).unstable == old(self).unstable
                &&& ci != 0 ==> {
                    &&& final(self).last_index_spec() == lastnewi
                    &&& forall|i: u64|
                        ci <= i <= lastnewi ==> #[trigger] final(self).entry_spec(i) == ents@[i - index - 1]@
                    &&& forall|i: u64|
                        i < ci && i <= old(self).last_index_spec() ==> #[trigger] final(self).term_spec(i)
                            == old(self).term_spec(i)
                    &&& forall|i: u64| i < ci ==> #[trigger] final(self).entry_spec(i) == old(
                        self,
                    ).entry_spec(i)
                    &&& final(self).unstable.offset == vstd::math::min(
                        old(self).unstable.offset as int,
                        ci as int,
                    )
                }
            },
    {
        if self.match_term(index, log_term) {
            let lastnewi = index + ents.len() as u64;
            let ci = self.find_conflict(ents);
            proof {
                self.lemma_conflict(views(ents@), index);
                assert(views(ents@).len() == ents@.len());
            }
            if ci != 0 {
                let offset = index + 1;
                let start = (ci - offset) as usize;
                let tail = vstd::slice::slice_subrange(ents, start, ents.len());
                proof {
                    assert forall|k: int| 0 <= k < tail@.len() implies (#[trigger] tail@[k]).index
                        == tail@[0].index + k by {
                        assert(tail@[k] == ents@[start + k]);
                        assert(tail@[0] == ents@[start as int]);
                    }
                    assert(tail@[0] == ents@[start as int]);
                    assert(views(ents@)[start as int] == ents@[start as int]@);
                }
                self.append(tail);
                proof {
                    assert forall|i: u64|
                        ci <= i <= lastnewi implies #[trigger] self.entry_spec(i) == ents@[i - index - 1]@ by {
                        assert(tail@[i - tail@[0].index] == ents@[i - index - 1]);
                    }
                }
            }
            let target = if committed < lastnewi {
                committed
            } else {
                lastnewi
            };
            let ghost mid = *self;
            self.commit_to(target);
            proof {
                if ci != 0 {
                    assert forall|i: u64|
                        ci <= i <= lastnewi implies #[trigger] self.entry_spec(i) == ents@[i - index - 1]@ by {
                        assert(mid.entry_spec(i) == ents@[i - index - 1]@);
                    }
                    assert forall|i: u64|
                        i < ci && i <= old(self).last_index_spec() implies #[trigger] self.term_spec(i)
                            == old(self).term_spec(i) by {
                        assert(mid.term_spec(i) == old(self).term_spec(i));
                    }
                    assert forall|i: u64| i < ci implies #[trigger] self.entry_spec(i) == old(
                        self,
                    ).entry_spec(i) by {
                        assert(mid.entry_spec(i) == old(self).entry_spec(i));
                    }
                }
            }
            Some(lastnewi)
        } else {
            None
        }
    }

    /// Commits up to `max_index` if that is past the commit index and its
    /// entry has term `term`.
    pub fn maybe_commit(&mut self, max_index: u64, term: u64) -> (r: bool)
        requires
            old(self).wf(),
            max_index > old(self).committed && old(self).term_spec(max_index) == term ==> max_index
                <= old(self).last_index_spec(),
        ensures
            final(self).wf(),
            r == (max_index > old(self).committed && old(self).term_spec(max_index) == term),
            r ==> final(self).committed == max_index,
            !r ==> final(self).committed == old(self).committed,
            final(self).applied == old(self).applied,
            final(self).storage == old(self).storage,
            final(self).unstable == old(self).unstable,
    {
        if max_index > self.committed && self.match_term(max_index, term) {
            self.commit_to(max_index);
            return true;
        }
        false
    }

    /// Takes the snapshot `s`: everything up to its index is committed.
    pub fn restore(&mut self, s: Snapshot)
        requires
            old(self).wf(),
            s.metadata.index >= old(self).applied,
            s.metadata.index < u64::MAX,
        ensures
            final(self).wf(),
            final(self).committed == s.metadata.index,
            final(self).applied == old(self).applied,
            final(self).storage == old(self).storage,
            final(self).unstable.offset == s.metadata.index + 1,
            final(self).unstable.entries@.len() == 0,
            final(self).unstable.snapshot == Some(s),
            final(self).first_index_spec() == s.metadata.index + 1,
            final(self).last_index_spec() == s.metadata.index,
            final(self).term_spec(s.metadata.index) == s.metadata.term,
    {
        let ghost si = s.metadata.index;
        let ghost st = s.metadata.term;
        self.committed = s.metadata.index;
        self.unstable.restore(s);
        proof {
            self.lemma_wf();
            assert(self.unstable.term_spec(si) == Some(st));
        }
    }

    /// The unstable entries.
    pub fn unstable_entries(&self) -> (r: &[Entry])
        ensures
            r@ == self.unstable.entries@,
    {
        self.unstable.entries.as_slice()
    }

    /// Whether there are committed entries not applied yet: a quick check
    /// that does not gather them.
    pub fn has_next_entries(&self) -> (r: bool)
        requires
            self.wf(),
        ensures
            r == (self.committed + 1 > vstd::math::max(
                self.first_index_spec() as int,
                self.applied + 1,
            )),
    {
        let first = self.first_index();
        let off = if first > self.applied + 1 {
            first
        } else {
            self.applied + 1
        };
        self.committed + 1 > off
    }

    /// The latest snapshot: the pending one, or else the storage's.
    pub fn snapshot(&self) -> (r: Result<Snapshot, RaftLogError>)
        requires
            self.wf(),
        ensures
            self.unstable.snapshot matches Some(s) ==> r is Ok && r->Ok_0@ == s@,
            self.unstable.snapshot is None ==> match r {
                Ok(s) => s@ == self.storage.snapshot_spec(),
                Err(e) => e == RaftLogError::FromStorage(
                    StorageError::SnapshotTemporarilyUnavailable,
                ),
            },
    {
        match &self.unstable.snapshot {
            Some(s) => Ok(s.clone()),
            None => match self.storage.snapshot() {
                Ok(s) => Ok(s),
                Err(err) => Err(RaftLogError::FromStorage(err)),
            },
        }
    }

    /// Checks that `lo..hi` lies within the log: `Compacted` if `lo`
    /// precedes the first index.
    pub fn must_check_out_of_bounds(&self, lo: u64, hi: u64) -> (r: Result<(), RaftLogError>)
        requires
            self.wf(),
            lo <= hi,
            lo >= self.first_index_spec() ==> hi <= self.last_index_spec() + 1,
        ensures
            lo < self.first_index_spec() ==> r == Err::<(), RaftLogError>(
                RaftLogError::FromStorage(StorageError::Compacted),
            ),
            lo >= self.first_index_spec() ==> r is Ok,
    {
        proof {
            self.lemma_wf();
        }
        let fi = self.first_index();
        if lo < fi {
            return Err(RaftLogError::FromStorage(StorageError::Compacted));
        }
        Ok(())
    }

    /// The entries `lo..hi`, as many as fit in `max_size` bytes and at least
    /// one; `Compacted` if `lo` precedes the first index; nothing if the
    /// storage has compacted the first of them away.
    pub fn slice(&self, lo: u64, hi: u64, max_size: u64) -> (r: Result<Vec<Entry>, RaftLogError>)
        requires
            self.wf(),
            lo <= hi,
            lo >= self.first_index_spec() ==> hi <= self.last_index_spec() + 1,
            lo >= self.first_index_spec() ==> sizable(range_view(self, lo, hi)),
        ensures
            lo < self.first_index_spec() ==> r == Err::<Vec<Entry>, RaftLogError>(
                RaftLogError::FromStorage(StorageError::Compacted),
            ),
            lo >= self.first_index_spec() ==> {
                &&& r is Ok
                &&& limit_len_ok(self.slice_spec(lo, hi), max_size, r->Ok_0@.len())
                &&& views(r->Ok_0@) == self.slice_spec(lo, hi).take(r->Ok_0@.len() as int)
                &&& prefix_size(self.slice_spec(lo, hi), self.slice_spec(lo, hi).len() as int)
                    <= max_size ==> r->Ok_0@.len() == self.slice_spec(lo, hi).len()
            },
    {
        proof {
            if lo >= self.first_index_spec() {
                self.lemma_holds(lo, hi);
            }
        }
        proof {
            self.lemma_wf();
        }
        match self.must_check_out_of_bounds(lo, hi) {
            Ok(()) => {},
            Err(e) => {
                return Err(e);
            },
        }
        if lo == hi {
            proof {
                assert(self.slice_spec(lo, hi) =~= Seq::<EntryView>::empty());
            }
            return Ok(Vec::new());
        }
        let offset = self.unstable.offset;
        let mut ents: Vec<Entry> = Vec::new();
        let shi = if hi < offset {
            hi
        } else {
            offset
        };
        if lo < offset {
            match self.storage.entries(lo, shi) {
                Ok(entries) => {
                    // check if ents has reached the size limitation
                    proof {
                        assert(views(entries@).len() == entries@.len());
                    }
                    if (entries.len() as u64) < shi - lo {
                        return Ok(entries);
                    }
                    ents = entries;
                },
                Err(_) => {
                    proof {
                        assert(self.slice_spec(lo, hi) =~= Seq::<EntryView>::empty());
                    }
                    return Ok(Vec::new());
                },
            }
        }
        let from = if lo > offset {
            lo
        } else {
            offset
        };
        let ghost mid: u64 = if lo < offset {
            shi
        } else {
            lo
        };
        proof {
            assert(views(ents@) =~= range_view(self, lo, mid));
        }
        if hi > offset {
            let mut unstable = self.unstable.slice(from, hi);
            let ghost a = ents@;
            let ghost b = unstable@;
            ents.append(&mut unstable);
            proof {
                assert(views(b) =~= range_view(self, from, hi)) by {
                    assert forall|k: int| 0 <= k < hi - from implies #[trigger] views(b)[k] == range_view(self, from, hi)[k] by {
                        assert(views(self.unstable.entries@)[from + k - offset]
                            == self.unstable.entries@[from + k - offset]@);
                    }
                }
                assert(views(ents@) =~= views(a) + views(b));
                assert(views(ents@) =~= range_view(self, lo, hi));
            }
        } else {
            proof {
                assert(views(ents@) =~= range_view(self, lo, hi));
            }
        }
        proof {
            assert(self.slice_spec(lo, hi) == range_view(self, lo, hi));
        }
        let limited = limit_size(ents, max_size);
        proof {
            if prefix_size(self.slice_spec(lo, hi), self.slice_spec(lo, hi).len() as int)
                <= max_size {
                lemma_limit_len_all(self.slice_spec(lo, hi), max_size, limited@.len());
            }
        }
        Ok(limited)
    }

    /// The entries from `i` to the last, as many as fit in `max_size` bytes
    /// and at least one; nothing if `i` is past the last index.
    pub fn entries(&self, i: u64, max_size: u64) -> (r: Result<Vec<Entry>, RaftLogError>)
        requires
            self.wf(),
            i <= self.last_index_spec() && i >= self.first_index_spec() ==> sizable(
                range_view(self, i, (self.last_index_spec() + 1) as u64),
            ),
        ensures
            i > self.last_index_spec() ==> r is Ok && r->Ok_0@.len() == 0,
            i <= self.last_index_spec() && i < self.first_index_spec() ==> r == Err::<
                Vec<Entry>,
                RaftLogError,
            >(RaftLogError::FromStorage(StorageError::Compacted)),
            i <= self.last_index_spec() && i >= self.first_index_spec() ==> {
                let want = self.slice_spec(i, (self.last_index_spec() + 1) as u64);
                &&& r is Ok
                &&& limit_len_ok(want, max_size, r->Ok_0@.len())
                &&& views(r->Ok_0@) == want.take(r->Ok_0@.len() as int)
                &&& prefix_size(want, want.len() as int) <= max_size ==> r->Ok_0@.len() == want.len()
            },
    {
        proof {
            if i <= self.last_index_spec() {
                self.lemma_holds(i, (self.last_index_spec() + 1) as u64);
            }
        }
        proof {
            self.lemma_wf();
        }
        let last = self.last_index();
        if i > last {
            return Ok(Vec::new());
        }
        self.slice(i, last + 1, max_size)
    }

    /// All the entries of the log.
    pub fn all_entries(&self) -> (r: Vec<Entry>)
        requires
            self.wf(),
            sizable(range_view(self, self.first_index_spec(), (self.last_index_spec() + 1) as u64)),
        ensures
            ({
                let want = self.slice_spec(
                    self.first_index_spec(),
                    (self.last_index_spec() + 1) as u64,
                );
                &&& limit_len_ok(want, NO_LIMIT, r@.len())
                &&& views(r@) == want.take(r@.len() as int)
                &&& prefix_size(want, want.len() as int) <= NO_LIMIT ==> r@.len() == want.len()
            }),
    {
        proof {
            self.lemma_wf();
            self.lemma_holds(self.first_index_spec(), (self.last_index_spec() + 1) as u64);
        }
        match self.entries(self.first_index(), NO_LIMIT) {
            Ok(entries) => entries,
            Err(_) => Vec::new(),
        }
    }

    /// The committed entries not yet applied, as many as fit in
    /// `max_next_ents_size` bytes; if the applied index precedes the first
    /// index, those from the first index on.
    pub fn next_ents(&self) -> (r: Vec<Entry>)
        requires
            self.wf(),
            self.committed <= self.last_index_spec(),
            sizable(
                range_view(
                    self,
                    vstd::math::max(self.first_index_spec() as int, self.applied + 1) as u64,
                    (self.committed + 1) as u64,
                ),
            ),
        ensures
            ({
                let off = vstd::math::max(self.first_index_spec() as int, self.applied + 1);
                &&& self.committed + 1 <= off ==> r@.len() == 0
                &&& self.committed + 1 > off ==> {
                    let want = self.slice_spec(off as u64, (self.committed + 1) as u64);
                    &&& limit_len_ok(want, self.max_next_ents_size, r@.len())
                    &&& views(r@) == want.take(r@.len() as int)
                }
            }),
    {
        proof {
            self.lemma_holds(
                vstd::math::max(self.first_index_spec() as int, self.applied + 1) as u64,
                (self.committed + 1) as u64,
            );
        }
        proof {
            self.lemma_wf();
        }
        let first = self.first_index();
        let off = if first > self.applied + 1 {
            first
        } else {
            self.applied + 1
        };
        if self.committed + 1 > off {
            match self.slice(off, self.committed + 1, self.max_next_ents_size) {
                Ok(ents) => ents,
                Err(_) => Vec::new(),
            }
        } else {
            Vec::new()
        }
    }

    /// `t`, or 0 where the term could not be read because it was compacted.
    pub fn zero_term_on_err_compacted(&self, t: u64, ret: Result<u64, RaftLogError>) -> (r: u64)
        requires
            ret is Ok || ret == Err::<u64, RaftLogError>(
                RaftLogError::FromStorage(StorageError::Compacted),
            ),
        ensures
            r == if ret is Ok {
                t
            } else {
                0
            },
    {
        match ret {
            Ok(_) => t,
            Err(_) => 0,
        }
    }

    /// The log's indexes as text.
    pub fn to_string(&self) -> (r: String)
        ensures
            r@ == "committed="@ + decimal(self.committed as nat) + ", applied="@ + decimal(
                self.applied as nat,
            ) + ", unstable.offset="@ + decimal(self.unstable.offset as nat)
                + ", len(unstable.entries)="@ + decimal(self.unstable.entries@.len()),
    {
        let mut s = String::new();
        push_str(&mut s, "committed=");
        push_decimal(&mut s, self.committed);
        push_str(&mut s, ", applied=");
        push_decimal(&mut s, self.applied);
        push_str(&mut s, ", unstable.offset=");
        push_decimal(&mut s, self.unstable.offset);
        push_str(&mut s, ", len(unstable.entries)=");
        push_decimal(&mut s, self.unstable.entries.len() as u64);
        proof {
            assert(s@ =~= "committed="@ + decimal(self.committed as nat) + ", applied="@ + decimal(
                self.applied as nat,
            ) + ", unstable.offset="@ + decimal(self.unstable.offset as nat)
                + ", len(unstable.entries)="@ + decimal(self.unstable.entries@.len()));
        }
        s
    }

    proof fn lemma_append_result(&self, old_self: Self, e: Seq<EntryView>)
        requires
            old_self.wf(),
            e.len() > 0,
            forall|k: int| 0 <= k < e.len() ==> (#[trigger] e[k]).index == e[0].index + k,
            e[0].index >= 1,
            e[0].index - 1 >= old_self.committed,
            e[0].index + e.len() <= u64::MAX,
            e[0].index <= old_self.unstable.offset + old_self.unstable.entries@.len(),
            self.storage == old_self.storage,
            self.committed == old_self.committed,
            self.applied == old_self.applied,
            self.unstable.wf(),
            self.unstable.snapshot == old_self.unstable.snapshot,
            self.unstable.offset == vstd::math::min(old_self.unstable.offset as int, e[0].index as int),
            views(self.unstable.entries@) == if e[0].index <= old_self.unstable.offset {
                e
            } else {
                views(old_self.unstable.entries@).take(e[0].index - old_self.unstable.offset) + e
            },
        ensures
            self.wf(),
            self.last_index_spec() == e[0].index + e.len() - 1,
            self.first_index_spec() == old_self.first_index_spec(),
            forall|i: u64|
                e[0].index <= i <= self.last_index_spec() ==> #[trigger] self.entry_spec(i) == e[i - e[0].index],
            forall|i: u64|
                e[0].index <= i <= self.last_index_spec() ==> #[trigger] self.term_spec(i) == e[i - e[0].index].term,
            forall|i: u64|
                i < e[0].index && i <= old_self.last_index_spec() ==> #[trigger] self.term_spec(i)
                    == old_self.term_spec(i),
            forall|i: u64| i < e[0].index ==> #[trigger] self.entry_spec(i) == old_self.entry_spec(i),
    {
        old_self.lemma_wf();
        let u = self.unstable;
        let ou = old_self.unstable;
        assert(u.entries@.len() == views(u.entries@).len());
        assert(ou.entries@.len() == views(ou.entries@).len());
        assert(u.offset + u.entries@.len() == e[0].index + e.len());
        assert forall|i: u64|
            e[0].index <= i <= self.last_index_spec() implies #[trigger] self.entry_spec(i) == e[i - e[0].index] by {
            assert(views(u.entries@)[i - u.offset] == u.entries@[i - u.offset]@);
        }
        assert forall|i: u64|
            e[0].index <= i <= self.last_index_spec() implies #[trigger] self.term_spec(i) == e[i - e[0].index].term by {
            assert(views(u.entries@)[i - u.offset] == u.entries@[i - u.offset]@);
        }
        assert forall|i: u64|
            i < e[0].index && i <= old_self.last_index_spec() implies #[trigger] self.term_spec(i)
                == old_self.term_spec(i) by {
            if i >= u.offset {
                assert(views(u.entries@)[i - u.offset] == u.entries@[i - u.offset]@);
                if i >= ou.offset {
                    assert(views(ou.entries@)[i - ou.offset] == ou.entries@[i - ou.offset]@);
                }
            }
        }
        assert forall|i: u64| i < e[0].index implies #[trigger] self.entry_spec(i)
            == old_self.entry_spec(i) by {
            if i >= u.offset {
                assert(views(u.entries@)[i - u.offset] == u.entries@[i - u.offset]@);
                assert(views(ou.entries@)[i - ou.offset] == ou.entries@[i - ou.offset]@);
            }
        }
    }
}

} // verus!
