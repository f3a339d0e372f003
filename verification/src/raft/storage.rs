//! Stable storage of the raft log, and an implementation that keeps it in
//! memory.
use vstd::prelude::*;
use crate::raft::raftpb::raft::{
    copy_entries, empty_snapshot_view, views, ConfState, Entry, EntryType, EntryView, HardState,
    Snapshot, SnapshotView,
};

verus! {

/// The errors of a storage.
#[derive(Debug, Clone, Copy, PartialEq, Eq, Structural)]
pub enum StorageError {
    /// The requested index predates the last snapshot and has been compacted.
    Compacted,
    /// The requested snapshot index is older than the existing snapshot.
    SnapshotOfDate,
    /// The requested entries are unavailable.
    Unavailable,
    /// The snapshot is not ready yet; it may be asked for again later.
    SnapshotTemporarilyUnavailable,
}

impl StorageError {
    /// The message that describes the error.
    pub fn message(&self) -> (r: &'static str)
        ensures
            r@ == storage_error_text(*self),
    {
        match self {
            StorageError::Compacted => "requested index is unavailable due to comaction",
            StorageError::SnapshotOfDate => "requested index is older than the existing snapshot",
            StorageError::Unavailable => "requested entry at index is unavailable",
            StorageError::SnapshotTemporarilyUnavailable => "snapshot is temporarily unavailable",
        }
    }
}

/// The message of each storage error.
pub open spec fn storage_error_text(e: StorageError) -> Seq<char> {
    match e {
        StorageError::Compacted => "requested index is unavailable due to comaction"@,
        StorageError::SnapshotOfDate => "requested index is older than the existing snapshot"@,
        StorageError::Unavailable => "requested entry at index is unavailable"@,
        StorageError::SnapshotTemporarilyUnavailable => "snapshot is temporarily unavailable"@,
    }
}

/// Where raft keeps its log, its hard state and its latest snapshot.
///
/// The log is the entries from `first_index_spec` to `last_index_spec`; the
/// entry just before them is the last one that the snapshot holds, of which
/// only the term is kept.
pub trait Storage {
    /// The storage is consistent.
    spec fn inv(&self) -> bool;

    /// The index of the first entry that `entries` can give.
    spec fn first_index_spec(&self) -> u64;

    /// The index of the last entry.
    spec fn last_index_spec(&self) -> u64;

    /// The term of the entry at `i`, for `i` from `first_index_spec() - 1`
    /// to `last_index_spec()`.
    spec fn term_spec(&self, i: u64) -> u64;

    /// The entry at `i`, for `i` from `first_index_spec()` to
    /// `last_index_spec()`.
    spec fn entry_spec(&self, i: u64) -> EntryView;

    /// The saved hard state.
    spec fn hard_state_spec(&self) -> HardState;

    /// The latest snapshot.
    spec fn snapshot_spec(&self) -> SnapshotView;

    /// A consistent storage holds its entries at their own indexes, starts
    /// at index 1 or later, and leaves room for one more index.
    proof fn lemma_inv(&self)
        requires
            self.inv(),
        ensures
            1 <= self.first_index_spec() <= self.last_index_spec() + 1,
            self.last_index_spec() < u64::MAX,
            forall|i: u64|
                self.first_index_spec() <= i <= self.last_index_spec() ==> (#[trigger] self.entry_spec(
                    i,
                )).index == i && self.entry_spec(i).term == self.term_spec(i),
    ;

    /// The saved hard state and the configuration of the latest snapshot.
    fn initial_state(&self) -> (r: Result<(HardState, ConfState), StorageError>)
        requires
            self.inv(),
        ensures
            r is Ok,
            r->Ok_0.0 == self.hard_state_spec(),
            r->Ok_0.1@ == self.snapshot_spec().metadata.conf_state,
    ;

    /// The entries from `lo` up to, not including, `hi`; `Compacted` where
    /// `lo` precedes the first index.
    fn entries(&self, lo: u64, hi: u64) -> (r: Result<Vec<Entry>, StorageError>)
        requires
            self.inv(),
            lo <= hi,
            hi <= self.last_index_spec() + 1,
        ensures
            match r {
                Ok(v) => lo >= self.first_index_spec() && views(v@) == Seq::new(
                    (hi - lo) as nat,
                    |k: int| self.entry_spec((lo + k) as u64),
                ),
                Err(e) => e == StorageError::Compacted && lo < self.first_index_spec(),
            },
    ;

    /// The term of the entry at `i`: `Compacted` before the entry that the
    /// snapshot ends with, `Unavailable` past the last entry.
    fn term(&self, i: u64) -> (r: Result<u64, StorageError>)
        requires
            self.inv(),
        ensures
            match r {
                Ok(t) => self.first_index_spec() - 1 <= i <= self.last_index_spec() && t
                    == self.term_spec(i),
                Err(e) => (e == StorageError::Compacted && i < self.first_index_spec() - 1) || (e
                    == StorageError::Unavailable && i > self.last_index_spec()),
            },
    ;

    /// The index of the last entry.
    fn last_index(&self) -> (r: Result<u64, StorageError>)
        requires
            self.inv(),
        ensures
            r == Ok::<u64, StorageError>(self.last_index_spec()),
    ;

    /// The index of the first entry that `entries` can give.
    fn first_index(&self) -> (r: Result<u64, StorageError>)
        requires
            self.inv(),
        ensures
            r == Ok::<u64, StorageError>(self.first_index_spec()),
    ;

    /// The latest snapshot, or `SnapshotTemporarilyUnavailable` while it is
    /// being prepared.
    fn snapshot(&self) -> (r: Result<Snapshot, StorageError>)
        requires
            self.inv(),
        ensures
            match r {
                Ok(s) => s@ == self.snapshot_spec(),
                Err(e) => e == StorageError::SnapshotTemporarilyUnavailable,
            },
    ;
}

/// A storage that keeps everything in memory. `ents[i]` is the entry at
/// index `i + ents[0].index`; `ents[0]` stands for the last entry of the
/// snapshot and holds only its index and term.
#[derive(Clone)]
pub struct MemoryStorage {
    pub hard_state: HardState,
    pub snapshot: Snapshot,
    pub ents: Vec<Entry>,
}

/// The dummy entry that stands for the end of a snapshot.
pub open spec fn dummy_entry_view(index: u64, term: u64) -> EntryView {
    EntryView { entry_type: EntryType::EntryNormal, term, index, data: Seq::empty() }
}

impl MemoryStorage {
    /// The index of the dummy entry.
    pub open spec fn offset(&self) -> u64 {
        self.ents@[0].index
    }

    pub fn new() -> (r: Self)
        ensures
            r.inv(),
            r.first_index_spec() == 1,
            r.last_index_spec() == 0,
            r.term_spec(0) == 0,
            r.hard_state_spec() == (HardState { term: 0, vote: 0, commit: 0 }),
            r.snapshot_spec() == empty_snapshot_view(),
            views(r.ents@) == seq![dummy_entry_view(0, 0)],
    {
        let mut ents: Vec<Entry> = Vec::new();
        ents.push(Entry::default());
        proof {
            assert(views(ents@) =~= seq![dummy_entry_view(0, 0)]);
        }
        MemoryStorage { hard_state: HardState::default(), snapshot: Snapshot::default(), ents }
    }

    /// Saves the hard state.
    pub fn set_hard_state(&mut self, st: HardState) -> (r: Result<(), StorageError>)
        requires
            old(self).inv(),
        ensures
            r is Ok,
            final(self).inv(),
            final(self).hard_state_spec() == st,
            final(self).snapshot == old(self).snapshot,
            final(self).ents == old(self).ents,
    {
        self.hard_state = st;
        Ok(())
    }

    /// Replaces the contents with those of `snapshot`, unless the storage's
    /// own snapshot is at least as recent: then `SnapshotOfDate`, and nothing
    /// changes.
    pub fn apply_snapshot(&mut self, snapshot: Snapshot) -> (r: Result<(), StorageError>)
        requires
            old(self).inv(),
            snapshot.metadata.index < u64::MAX,
        ensures
            final(self).inv(),
            final(self).hard_state == old(self).hard_state,
            old(self).snapshot.metadata.index >= snapshot.metadata.index ==> r == Err::<
                (),
                StorageError,
            >(StorageError::SnapshotOfDate) && final(self).snapshot == old(self).snapshot
                && final(self).ents == old(self).ents,
            old(self).snapshot.metadata.index < snapshot.metadata.index ==> {
                &&& r is Ok
                &&& final(self).snapshot_spec() == snapshot@
                &&& views(final(self).ents@) == seq![
                    dummy_entry_view(snapshot.metadata.index, snapshot.metadata.term),
                ]
                &&& final(self).first_index_spec() == snapshot.metadata.index + 1
                &&& final(self).last_index_spec() == snapshot.metadata.index
                &&& final(self).term_spec(snapshot.metadata.index) == snapshot.metadata.term
            },
    {
        // handle check for old snapshot being applied
        let index = self.snapshot.metadata.index;
        let snapshot_index = snapshot.metadata.index;
        if index >= snapshot_index {
            return Err(StorageError::SnapshotOfDate);
        }
        let mut new_entry = Entry::new();
        new_entry.term = snapshot.metadata.term;
        new_entry.index = snapshot_index;
        self.snapshot = snapshot;
        let mut ents: Vec<Entry> = Vec::new();
        ents.push(new_entry);
        self.ents = ents;
        proof {
            assert(views(self.ents@) =~= seq![
                dummy_entry_view(self.snapshot.metadata.index, self.snapshot.metadata.term),
            ]);
        }
        Ok(())
    }

    /// Makes the snapshot that ends at index `i`, with the configuration `cs`
    /// if one is given and the state machine's `data`, and returns it; if
    /// `i` is not past the existing snapshot, `SnapshotOfDate`, and nothing
    /// changes.
    pub fn create_snapshot(&mut self, i: u64, cs: Option<ConfState>, data: Vec<u8>) -> (r: Result<
        Snapshot,
        StorageError,
    >)
        requires
            old(self).inv(),
            i > old(self).snapshot.metadata.index ==> old(self).first_index_spec() - 1 <= i
                <= old(self).last_index_spec(),
        ensures
            final(self).inv(),
            final(self).hard_state == old(self).hard_state,
            final(self).ents == old(self).ents,
            i <= old(self).snapshot.metadata.index ==> r == Err::<Snapshot, StorageError>(
                StorageError::SnapshotOfDate,
            ) && final(self).snapshot == old(self).snapshot,
            i > old(self).snapshot.metadata.index ==> {
                &&& r is Ok
                &&& r->Ok_0@ == final(self).snapshot_spec()
                &&& final(self).snapshot.metadata.index == i
                &&& final(self).snapshot.metadata.term == old(self).term_spec(i)
                &&& final(self).snapshot.metadata.conf_state@ == match cs {
                    Some(c) => c@,
                    None => old(self).snapshot.metadata.conf_state@,
                }
                &&& final(self).snapshot.data@ == data@
            },
    {
        if i <= self.snapshot.metadata.index {
            return Err(StorageError::SnapshotOfDate);
        }
        let offset = self.ents[0].index;
        let n = self.ents.len();
        assert(i - offset < n);
        let idx = (i - offset) as usize;
        let term = self.ents[idx].term;
        self.snapshot.metadata.index = i;
        self.snapshot.metadata.term = term;
        match cs {
            Some(c) => {
                self.snapshot.metadata.conf_state = c;
            },
            None => {},
        }
        self.snapshot.data = data;
        Ok(self.snapshot.clone())
    }

    /// Discards the entries before `compact_index`, which becomes the index
    /// of the dummy entry; `Compacted` if they are already gone.
    pub fn compact(&mut self, compact_index: u64) -> (r: Result<(), StorageError>)
        requires
            old(self).inv(),
            compact_index > old(self).offset() ==> compact_index <= old(self).last_index_spec(),
        ensures
            final(self).inv(),
            final(self).hard_state == old(self).hard_state,
            final(self).snapshot == old(self).snapshot,
            compact_index <= old(self).offset() ==> r == Err::<(), StorageError>(
                StorageError::Compacted,
            ) && final(self).ents == old(self).ents,
            compact_index > old(self).offset() ==> {
                &&& r is Ok
                &&& final(self).first_index_spec() == compact_index + 1
                &&& final(self).last_index_spec() == old(self).last_index_spec()
                &&& final(self).term_spec(compact_index) == old(self).term_spec(compact_index)
                &&& forall|j: u64|
                    compact_index < j <= old(self).last_index_spec() ==> #[trigger] final(self).entry_spec(j) == old(self).entry_spec(j)
            },
    {
        let offset = self.ents[0].index;
        if compact_index <= offset {
            return Err(StorageError::Compacted);
        }
        let n = self.ents.len();
        assert(compact_index - offset < n);
        let i = (compact_index - offset) as usize;
        let mut ents: Vec<Entry> = Vec::new();
        let mut first = Entry::new();
        first.index = self.ents[i].index;
        first.term = self.ents[i].term;
        ents.push(first);
        let mut k: usize = i + 1;
        let ghost old_ents = self.ents@;
        while k < self.ents.len()
            invariant
                self.ents@ == old_ents,
                i + 1 <= k <= old_ents.len(),
                ents@.len() == k - i,
                ents@[0]@ == dummy_entry_view(old_ents[i as int].index, old_ents[i as int].term),
                forall|j: int| 1 <= j < ents@.len() ==> (#[trigger] ents@[j])@ == old_ents[i + j]@,
            decreases old_ents.len() - k,
        {
            ents.push(self.ents[k].clone());
            k = k + 1;
        }
        self.ents = ents;
        Ok(())
    }

    /// Appends `entries`, whose indexes follow one another, to the log: any
    /// entries from the first new index on are replaced; new entries that
    /// precede the first index are dropped.
    #[verifier::spinoff_prover]
    pub fn append(&mut self, entries: Vec<Entry>) -> (r: Result<(), StorageError>)
        requires
            old(self).inv(),
            forall|k: int| 0 <= k < entries@.len() ==> (#[trigger] entries@[k]).index == entries@[0].index + k,
            entries@.len() > 0 ==> entries@[0].index + entries@.len() <= u64::MAX,
            entries@.len() > 0 && entries@[0].index + entries@.len() - 1 >= old(self).first_index_spec() ==> entries@[0].index <= old(self).last_index_spec() + 1,
        ensures
            r is Ok,
            final(self).inv(),
            final(self).hard_state == old(self).hard_state,
            final(self).snapshot == old(self).snapshot,
            final(self).first_index_spec() == old(self).first_index_spec(),
            final(self).term_spec((final(self).first_index_spec() - 1) as u64) == old(self).term_spec(
                (old(self).first_index_spec() - 1) as u64,
            ),
            entries@.len() == 0 || entries@[0].index + entries@.len() - 1 < old(self).first_index_spec() ==> final(self).ents == old(self).ents,
            entries@.len() > 0 && entries@[0].index + entries@.len() - 1 >= old(self).first_index_spec() ==> {
                &&& final(self).last_index_spec() == entries@[0].index + entries@.len() - 1
                &&& forall|j: u64|
                    old(self).first_index_spec() <= j < entries@[0].index ==> #[trigger] final(self).entry_spec(j) == old(self).entry_spec(j)
                &&& forall|j: u64|
                    entries@[0].index <= j && j >= old(self).first_index_spec() && j
                        <= final(self).last_index_spec() ==> #[trigger] final(self).entry_spec(j)
                        == entries@[j - entries@[0].index]@
                &&& ({
                    // What `entries` reads back from the first new index kept.
                    let lo = vstd::math::max(
                        entries@[0].index as int,
                        old(self).first_index_spec() as int,
                    );
                    Seq::new(
                        (final(self).last_index_spec() + 1 - lo) as nat,
                        |k: int| final(self).entry_spec((lo + k) as u64),
                    ) == views(entries@).skip(lo - entries@[0].index)
                })
            },
    {
        if entries.len() == 0 {
            return Ok(());
        }
        let first = self.ents[0].index + 1;
        let last = entries[0].index + (entries.len() as u64) - 1;
        // shortcut if there is no new entry.
        if last < first {
            return Ok(());
        }
        // truncate compacted entries
        let skip: usize = if first > entries[0].index {
            (first - entries[0].index) as usize
        } else {
            0
        };
        let start_index = entries[skip].index;
        let n = self.ents.len();
        proof {
            assert(start_index == entries@[0].index + skip);
            assert(start_index == vstd::math::max(entries@[0].index as int, first as int));
            assert(1 <= start_index - self.ents@[0].index <= n);
        }
        let offset = (start_index - self.ents[0].index) as usize;
        let ghost old_ents = self.ents@;
        let mut ents: Vec<Entry> = Vec::new();
        let mut k: usize = 0;
        while k < offset
            invariant
                self.ents@ == old_ents,
                offset <= old_ents.len(),
                k <= offset,
                ents@.len() == k,
                forall|j: int| 0 <= j < k ==> (#[trigger] ents@[j])@ == old_ents[j]@,
            decreases offset - k,
        {
            ents.push(self.ents[k].clone());
            k = k + 1;
        }
        let mut m: usize = skip;
        while m < entries.len()
            invariant
                skip <= m <= entries@.len(),
                ents@.len() == offset + (m - skip),
                forall|j: int| 0 <= j < offset ==> (#[trigger] ents@[j])@ == old_ents[j]@,
                forall|j: int|
                    offset <= j < ents@.len() ==> (#[trigger] ents@[j])@ == entries@[skip + (j
                        - offset)]@,
            decreases entries@.len() - m,
        {
            ents.push(entries[m].clone());
            m = m + 1;
        }
        self.ents = ents;
        proof {
            let e0 = entries@[0].index;
            let lo = vstd::math::max(e0 as int, first as int);
            let got = Seq::new(
                (self.last_index_spec() + 1 - lo) as nat,
                |k: int| self.entry_spec((lo + k) as u64),
            );
            let want = views(entries@).skip(lo - e0);
            assert(lo - e0 == skip);
            assert(lo == start_index);
            assert(offset >= 1);
            assert(self.ents@[0]@ == old_ents[0]@);
            assert(self.ents@[0].index == old_ents[0].index);
            assert(got.len() == want.len());
            assert forall|k: int| 0 <= k < got.len() implies got[k] == want[k] by {
                assert(0 <= skip + k < entries@.len());
                assert(want[k] == views(entries@)[skip + k]);
                assert(views(entries@)[skip + k] == entries@[skip + k]@);
                assert((lo + k) - self.ents@[0].index == offset + k);
                assert(ents@[offset + k]@ == entries@[skip + ((offset + k) - offset)]@);
            }
            assert(got =~= want);
        }
        Ok(())
    }
}

impl Storage for MemoryStorage {
    open spec fn inv(&self) -> bool {
        &&& self.ents@.len() >= 1
        &&& self.ents@[0].index + self.ents@.len() <= u64::MAX
        &&& forall|k: int|
            0 <= k < self.ents@.len() ==> (#[trigger] self.ents@[k]).index == self.ents@[0].index
                + k
    }

    open spec fn first_index_spec(&self) -> u64 {
        (self.ents@[0].index + 1) as u64
    }

    open spec fn last_index_spec(&self) -> u64 {
        (self.ents@[0].index + self.ents@.len() - 1) as u64
    }

    open spec fn term_spec(&self, i: u64) -> u64 {
        self.ents@[i - self.ents@[0].index].term
    }

    open spec fn entry_spec(&self, i: u64) -> EntryView {
        self.ents@[i - self.ents@[0].index]@
    }

    open spec fn hard_state_spec(&self) -> HardState {
        self.hard_state
    }

    open spec fn snapshot_spec(&self) -> SnapshotView {
        self.snapshot@
    }

    proof fn lemma_inv(&self) {
    }

    fn initial_state(&self) -> (r: Result<(HardState, ConfState), StorageError>) {
        Ok((self.hard_state, self.snapshot.metadata.conf_state.clone()))
    }

    fn entries(&self, lo: u64, hi: u64) -> (r: Result<Vec<Entry>, StorageError>) {
        let offset = self.ents[0].index;
        if lo <= offset {
            return Err(StorageError::Compacted);
        }
        let n = self.ents.len();
        assert(hi - offset <= n);
        let start = (lo - offset) as usize;
        let end = (hi - offset) as usize;
        let ents = copy_entries(vstd::slice::slice_subrange(self.ents.as_slice(), start, end));
        assert(ents@.len() == views(ents@).len());
        if self.ents.len() == 1 && ents.len() != 0 {
            return Err(StorageError::Unavailable);
        }
        proof {
            assert(views(ents@) =~= Seq::new(
                (hi - lo) as nat,
                |k: int| self.entry_spec((lo + k) as u64),
            ));
        }
        Ok(ents)
    }

    fn term(&self, i: u64) -> (r: Result<u64, StorageError>) {
        let offset = self.ents[0].index;
        if i < offset {
            return Err(StorageError::Compacted);
        }
        if i - offset >= self.ents.len() as u64 {
            return Err(StorageError::Unavailable);
        }
        Ok(self.ents[(i - offset) as usize].term)
    }

    fn last_index(&self) -> (r: Result<u64, StorageError>) {
        Ok(self.ents[0].index + (self.ents.len() as u64) - 1)
    }

    fn first_index(&self) -> (r: Result<u64, StorageError>) {
        Ok(self.ents[0].index + 1)
    }

    fn snapshot(&self) -> (r: Result<Snapshot, StorageError>)
        ensures
            r is Ok,
    {
        Ok(self.snapshot.clone())
    }
}

} // verus!
