//! A majority quorum: a set of voters of which more than half must agree.
use std::collections::{HashMap, HashSet};
use vstd::prelude::*;
use vstd::std_specs::iter::IteratorSpec;
use vstd::std_specs::hash::spec_hash_keys_iter;
use crate::raft::quorum::counting::{
    lemma_count_distinct, lemma_filter_agree, lemma_least_at_least, lemma_sorted_ids,
    sorted_ids, strictly_increasing,
};
use crate::raft::quorum::quorum::{AckedIndexer, Index, VoteResult};
use crate::raft::util::text::{
    comma_list, decimal, pad_left, push_char, push_comma_list, push_decimal, push_padded_decimal,
    push_repeat, repeat_char,
};

verus! {

broadcast use vstd::std_specs::hash::group_hash_axioms, vstd::set::group_set_axioms,
    vstd::seq_lib::group_seq_properties;

/// The ids of a set, each once, in the order in which the set is walked.
pub fn ids_of(set: &HashSet<u64>) -> (r: Vec<u64>)
    ensures
        r@.no_duplicates(),
        r@.to_set() == set@,
        r@.len() == set@.len(),
{
    let mut r: Vec<u64> = Vec::new();
    for id in it: set.iter()
        invariant
            r@.len() == it.index(),
            it.seq() == spec_hash_keys_iter(set).remaining(),
            forall|k: int| 0 <= k < it.index() ==> r@[k] == *it.seq()[k],
    {
        r.push(*id);
    }
    proof {
        let s = spec_hash_keys_iter(set).remaining().unref();
        assert(r@ =~= s);
    }
    r
}

/// The number of voters needed for a quorum of `c`: more than half of them.
pub open spec fn quorum_size(c: Set<u64>) -> nat {
    c.len() / 2 + 1
}

/// The index that voter `id` has acknowledged, or 0 where none is known.
pub open spec fn acked_or_zero<T: AckedIndexer>(l: T, id: u64) -> u64 {
    match l.acked(id) {
        Some(i) => i,
        None => 0,
    }
}

/// The voters of `c` that have acknowledged at least `idx`.
pub open spec fn acked_at_least<T: AckedIndexer>(l: T, c: Set<u64>, idx: u64) -> Set<u64> {
    c.filter(|id: u64| acked_or_zero(l, id) >= idx)
}

/// `idx` is the committed index of the voters `c`: a quorum of them has
/// acknowledged `idx`, and no quorum has acknowledged anything larger. For no
/// voters at all it is the largest index, so that an empty half of a joint
/// configuration leaves the decision to the other half.
pub open spec fn is_committed_index<T: AckedIndexer>(l: T, c: Set<u64>, idx: u64) -> bool {
    if c.len() == 0 {
        idx == u64::MAX
    } else {
        &&& acked_at_least(l, c, idx).len() >= quorum_size(c)
        &&& forall|j: u64| j > idx ==> #[trigger] acked_at_least(l, c, j).len() < quorum_size(c)
    }
}

/// The committed index of the voters `c` (see `is_committed_index`).
pub open spec fn committed_index_of<T: AckedIndexer>(l: T, c: Set<u64>) -> u64 {
    choose|idx: u64| is_committed_index(l, c, idx)
}

/// At most one index is the committed index of a set of voters.
pub proof fn lemma_committed_index_unique<T: AckedIndexer>(l: T, c: Set<u64>, a: u64, b: u64)
    requires
        is_committed_index(l, c, a),
        is_committed_index(l, c, b),
    ensures
        a == b,
{
    if c.len() != 0 {
        if a < b {
            assert(acked_at_least(l, c, b).len() < quorum_size(c));
        } else if b < a {
            assert(acked_at_least(l, c, a).len() < quorum_size(c));
        }
    }
}

/// An index that is the committed index is the one `committed_index_of` names.
pub proof fn lemma_committed_index_of<T: AckedIndexer>(l: T, c: Set<u64>, idx: u64)
    requires
        is_committed_index(l, c, idx),
    ensures
        committed_index_of(l, c) == idx,
{
    let w = committed_index_of(l, c);
    assert(is_committed_index(l, c, w));
    lemma_committed_index_unique(l, c, w, idx);
}

/// Whether voter `id` has cast the vote `yes` in `votes`.
pub open spec fn has_voted(votes: Map<u64, bool>, id: u64, yes: bool) -> bool {
    votes.contains_key(id) && votes[id] == yes
}

/// Whether a voter has voted yes.
pub open spec fn voted_yes(votes: Map<u64, bool>) -> spec_fn(u64) -> bool {
    |id: u64| has_voted(votes, id, true)
}

/// Whether a voter has not voted.
pub open spec fn not_voted(votes: Map<u64, bool>) -> spec_fn(u64) -> bool {
    |id: u64| !votes.contains_key(id)
}

/// The voters of `c` that voted yes.
pub open spec fn yes_voters(c: Set<u64>, votes: Map<u64, bool>) -> Set<u64> {
    c.filter(voted_yes(votes))
}

/// The voters of `c` that have not voted.
pub open spec fn missing_voters(c: Set<u64>, votes: Map<u64, bool>) -> Set<u64> {
    c.filter(not_voted(votes))
}

/// The outcome of an election among the voters `c`: won once a quorum has
/// voted yes, pending while the missing votes could still make a quorum of
/// yes, lost otherwise. An election among no voters is won.
pub open spec fn majority_vote_result(c: Set<u64>, votes: Map<u64, bool>) -> VoteResult {
    if c.len() == 0 {
        VoteResult::VoteWon
    } else if yes_voters(c, votes).len() >= quorum_size(c) {
        VoteResult::VoteWon
    } else if yes_voters(c, votes).len() + missing_voters(c, votes).len() >= quorum_size(c) {
        VoteResult::VotePending
    } else {
        VoteResult::VoteLost
    }
}

/// What each election outcome means in numbers, for a set of voters that is
/// not empty: it is won exactly when more than half of the voters said yes,
/// lost exactly when even with every missing vote a yes there could be no
/// more than half, and pending otherwise.
pub proof fn lemma_vote_result_counts(c: Set<u64>, votes: Map<u64, bool>)
    requires
        c.finite(),
        c.len() > 0,
    ensures
        (majority_vote_result(c, votes) == VoteResult::VoteWon) <==> 2 * yes_voters(
            c,
            votes,
        ).len() > c.len(),
        (majority_vote_result(c, votes) == VoteResult::VoteLost) <==> 2 * (yes_voters(c, votes).len()
            + missing_voters(c, votes).len()) <= c.len(),
        (majority_vote_result(c, votes) == VoteResult::VotePending) <==> (2 * yes_voters(
            c,
            votes,
        ).len() <= c.len() && c.len() < 2 * (yes_voters(c, votes).len() + missing_voters(
            c,
            votes,
        ).len())),
{
}

/// Two elections among the same voters cannot both be won unless some voter
/// said yes in both: any two winning sets of yes votes overlap.
pub proof fn lemma_won_elections_overlap(c: Set<u64>, votes1: Map<u64, bool>, votes2: Map<u64, bool>)
    requires
        c.finite(),
        c.len() > 0,
        majority_vote_result(c, votes1) == VoteResult::VoteWon,
        majority_vote_result(c, votes2) == VoteResult::VoteWon,
    ensures
        exists|id: u64|
            c.contains(id) && #[trigger] has_voted(votes1, id, true) && has_voted(votes2, id, true),
{
    let y1 = yes_voters(c, votes1);
    let y2 = yes_voters(c, votes2);
    c.lemma_len_filter(voted_yes(votes1));
    c.lemma_len_filter(voted_yes(votes2));
    vstd::set_lib::lemma_set_intersect_union_lens(y1, y2);
    assert((y1 + y2).subset_of(c));
    vstd::set_lib::lemma_len_subset(y1 + y2, c);
    let both = y1.intersect(y2);
    assert(both.len() > 0);
    vstd::set::axiom_set_choose_len(both);
    let id = both.choose();
    assert(c.contains(id) && has_voted(votes1, id, true) && has_voted(votes2, id, true));
}

/// `votes2` holds every vote of `votes`, and perhaps more.
pub open spec fn extends_votes(votes: Map<u64, bool>, votes2: Map<u64, bool>) -> bool {
    forall|id: u64| #[trigger]
        votes.contains_key(id) ==> votes2.contains_key(id) && votes2[id] == votes[id]
}

/// Further votes never reverse a decided election: a won election stays won
/// and a lost one stays lost.
pub proof fn lemma_vote_result_monotone(c: Set<u64>, votes: Map<u64, bool>, votes2: Map<u64, bool>)
    requires
        c.finite(),
        extends_votes(votes, votes2),
    ensures
        majority_vote_result(c, votes) == VoteResult::VoteWon ==> majority_vote_result(c, votes2)
            == VoteResult::VoteWon,
        majority_vote_result(c, votes) == VoteResult::VoteLost ==> majority_vote_result(c, votes2)
            == VoteResult::VoteLost,
{
    let y1 = yes_voters(c, votes);
    let m1 = missing_voters(c, votes);
    let y2 = yes_voters(c, votes2);
    let m2 = missing_voters(c, votes2);
    c.lemma_len_filter(voted_yes(votes));
    c.lemma_len_filter(not_voted(votes));
    c.lemma_len_filter(voted_yes(votes2));
    c.lemma_len_filter(not_voted(votes2));
    // Every yes stays a yes.
    assert(y1.subset_of(y2)) by {
        assert forall|id: u64| y1.contains(id) implies y2.contains(id) by {
            assert(votes.contains_key(id));
        }
    }
    vstd::set_lib::lemma_len_subset(y1, y2);
    // Every voter that is yes or missing afterwards was yes or missing before.
    assert((y2 + m2).subset_of(y1 + m1)) by {
        assert forall|id: u64| (y2 + m2).contains(id) implies (y1 + m1).contains(id) by {
            if votes.contains_key(id) {
                assert(votes2.contains_key(id) && votes2[id] == votes[id]);
            }
        }
    }
    assert(y1.disjoint(m1));
    assert(y2.disjoint(m2));
    vstd::set_lib::lemma_set_disjoint_lens(y1, m1);
    vstd::set_lib::lemma_set_disjoint_lens(y2, m2);
    vstd::set_lib::lemma_len_subset(y2 + m2, y1 + m1);
}

/// The voters of `c` that have acknowledged less than `idx`.
pub open spec fn acked_below<T: AckedIndexer>(l: T, c: Set<u64>, idx: u64) -> Set<u64> {
    c.filter(|id: u64| acked_or_zero(l, id) < idx)
}

/// The line of voter `id` in the table of `majority_describe`: a bar, the
/// voter's index right-aligned in five places, and its id. The bar of a
/// voter with a known index is one `x` for each voter with a smaller index,
/// so that equal indexes get equal bars and larger indexes longer ones, then
/// `>` and spaces up to the number of voters; a voter whose index is not known
/// gets `?` and spaces instead, and counts as index 0.
pub open spec fn describe_line<T: AckedIndexer>(l: T, c: Set<u64>, id: u64) -> Seq<char> {
    let n = c.len();
    let idx = acked_or_zero(l, id);
    let bar = acked_below(l, c, idx).len();
    (match l.acked(id) {
        None => seq!['?'] + repeat_char(' ', n),
        Some(_) => repeat_char('x', bar) + seq!['>'] + repeat_char(' ', (n - bar) as nat),
    }) + seq![' '] + pad_left(decimal(idx as nat), 5) + "    (id="@ + decimal(id as nat) + seq![
        ')',
        '\n',
    ]
}

/// The lines of the voters `ids`, in order.
pub open spec fn describe_lines<T: AckedIndexer>(l: T, c: Set<u64>, ids: Seq<u64>) -> Seq<char>
    decreases ids.len(),
{
    if ids.len() == 0 {
        Seq::empty()
    } else {
        describe_lines(l, c, ids.drop_last()) + describe_line(l, c, ids.last())
    }
}

/// The table of the indexes that `l` gives the voters `c`: a header with
/// `idx` over the index column, then one line per voter in increasing order
/// of id (see `describe_line`). For no voters, `<empty majority quorum>`.
pub open spec fn majority_describe<T: AckedIndexer>(l: T, c: Set<u64>) -> Seq<char> {
    if c.len() == 0 {
        "<empty majority quorum>"@
    } else {
        repeat_char(' ', c.len()) + "    idx\n"@ + describe_lines(l, c, sorted_ids(c))
    }
}

/// The textual form of a configuration: its voters in increasing order,
/// separated by commas, in parentheses.
pub open spec fn majority_text(c: Set<u64>) -> Seq<char> {
    seq!['('] + comma_list(sorted_ids(c)) + seq![')']
}

/// A set of voters that decides by majority.
pub struct MajorityConfig {
    pub votes: HashSet<u64>,
}

impl MajorityConfig {
    pub fn new() -> (r: Self)
        ensures
            r.votes@ == Set::<u64>::empty(),
    {
        MajorityConfig { votes: HashSet::new() }
    }

    pub fn len(&self) -> (r: usize)
        ensures
            r == self.votes@.len(),
    {
        self.votes.len()
    }

    /// A table of the indexes that `l` gives the voters (see
    /// `majority_describe`), or a note that there are no voters.
    pub fn describe<T: AckedIndexer>(&self, l: &T) -> (r: String)
        ensures
            r@ == majority_describe(*l, self.votes@),
    {
        if self.votes.len() == 0 {
            let mut s = String::new();
            crate::raft::util::text::push_str(&mut s, "<empty majority quorum>");
            proof {
                assert(s@ =~= "<empty majority quorum>"@);
            }
            return s;
        }
        let n = self.votes.len();
        let ids = sort_ids(&ids_of(&self.votes));
        proof {
            lemma_sorted_ids(ids@, self.votes@);
            lemma_increasing_no_duplicates(ids@);
        }
        let ghost f = |id: u64| acked_or_zero(*l, id);
        let mut vals: Vec<u64> = Vec::new();
        let mut k: usize = 0;
        while k < n
            invariant
                n == ids@.len(),
                k <= n,
                vals@.len() == k,
                forall|j: int| 0 <= j < k ==> vals@[j] == acked_or_zero(*l, #[trigger] ids@[j]),
            decreases n - k,
        {
            match l.acked_index(&ids[k]) {
                Some(i) => vals.push(*i),
                None => vals.push(0),
            }
            k = k + 1;
        }
        let mut s = String::new();
        push_repeat(&mut s, ' ', n);
        crate::raft::util::text::push_str(&mut s, "    idx\n");
        let ghost header = s@;
        let mut i: usize = 0;
        while i < n
            invariant
                n == ids@.len(),
                n == self.votes@.len(),
                i <= n,
                ids@ == sorted_ids(self.votes@),
                ids@.to_set() == self.votes@,
                ids@.no_duplicates(),
                vals@.len() == n,
                forall|j: int| 0 <= j < n ==> vals@[j] == f(#[trigger] ids@[j]),
                f == (|id: u64| acked_or_zero(*l, id)),
                s@ == header + describe_lines(*l, self.votes@, ids@.take(i as int)),
            decreases n - i,
        {
            let id = ids[i];
            let idx = vals[i];
            let ghost before = s@;
            match l.acked_index(&id) {
                None => {
                    push_char(&mut s, '?');
                    push_repeat(&mut s, ' ', n);
                },
                Some(_) => {
                    let bar = count_below(&ids, &vals, idx, Ghost(f));
                    proof {
                        lemma_count_distinct(ids@, below(f, idx));
                        assert(ids@.to_set().filter(below(f, idx)) =~= acked_below(
                            *l,
                            self.votes@,
                            idx,
                        ));
                    }
                    push_repeat(&mut s, 'x', bar);
                    push_char(&mut s, '>');
                    push_repeat(&mut s, ' ', n - bar);
                },
            }
            push_char(&mut s, ' ');
            push_padded_decimal(&mut s, idx, 5);
            crate::raft::util::text::push_str(&mut s, "    (id=");
            push_decimal(&mut s, id);
            push_char(&mut s, ')');
            push_char(&mut s, '\n');
            proof {
                let t = ids@.take(i as int + 1);
                assert(t.drop_last() =~= ids@.take(i as int));
                assert(t.last() == id);
                assert(s@ =~= before + describe_line(*l, self.votes@, id));
                assert(s@ =~= header + describe_lines(*l, self.votes@, t));
            }
            i = i + 1;
        }
        proof {
            assert(ids@.take(n as int) =~= ids@);
            assert(s@ =~= majority_describe(*l, self.votes@));
        }
        s
    }

    /// The largest index that a quorum of the voters has acknowledged
    /// according to `l`; the largest index of all for a configuration without
    /// voters.
    pub fn committed_index<T: AckedIndexer>(&self, l: &T) -> (r: Index)
        ensures
            is_committed_index(*l, self.votes@, r),
            r == committed_index_of(*l, self.votes@),
    {
        if self.votes.len() == 0 {
            proof {
                lemma_committed_index_of(*l, self.votes@, u64::MAX);
            }
            return u64::MAX;
        }
        let ids = ids_of(&self.votes);
        let n = ids.len();
        let ghost f = |id: u64| acked_or_zero(*l, id);
        let mut vals: Vec<u64> = Vec::new();
        let mut k: usize = 0;
        while k < n
            invariant
                n == ids@.len(),
                k <= n,
                vals@.len() == k,
                forall|j: int| 0 <= j < k ==> vals@[j] == acked_or_zero(*l, #[trigger] ids@[j]),
            decreases n - k,
        {
            let a = l.acked_index(&ids[k]);
            match a {
                Some(i) => vals.push(*i),
                None => vals.push(0),
            }
            k = k + 1;
        }
        assert(forall|j: int| 0 <= j < n ==> vals@[j] == f(#[trigger] ids@[j]));
        let q = n / 2 + 1;
        let mut best: u64 = 0;
        let mut found = false;
        let mut i: usize = 0;
        while i < n
            invariant
                n == ids@.len(),
                q == n / 2 + 1,
                i <= n,
                vals@.len() == n,
                forall|j: int| 0 <= j < n ==> vals@[j] == f(#[trigger] ids@[j]),
                found ==> ids@.filter(at_least(f, best)).len() >= q,
                forall|j: int|
                    0 <= j < i && ids@.filter(at_least(f, #[trigger] vals@[j])).len() >= q ==> found
                        && vals@[j] <= best,
            decreases n - i,
        {
            let c = vals[i];
            let count = count_at_least(&ids, &vals, c, Ghost(f));
            if count >= q && (!found || c > best) {
                best = c;
                found = true;
            }
            i = i + 1;
        }
        proof {
            let c = self.votes@;
            lemma_best_is_committed(ids@, f, vals@, q as nat, best, found);
            lemma_count_distinct(ids@, at_least(f, best));
            assert(ids@.to_set().filter(at_least(f, best)) =~= acked_at_least(*l, c, best));
            assert forall|jj: u64| jj > best implies #[trigger] acked_at_least(*l, c, jj).len()
                < quorum_size(c) by {
                lemma_count_distinct(ids@, at_least(f, jj));
                assert(ids@.to_set().filter(at_least(f, jj)) =~= acked_at_least(*l, c, jj));
            }
            lemma_committed_index_of(*l, c, best);
        }
        best
    }

    /// The outcome of the election given the votes cast so far.
    pub fn vote_result(&self, votes: &HashMap<u64, bool>) -> (r: VoteResult)
        ensures
            r == majority_vote_result(self.votes@, votes@),
    {
        if self.votes.len() == 0 {
            // By convention an election among no voters is won: a joint
            // configuration with one empty half then decides by the other.
            return VoteResult::VoteWon;
        }
        let ids = ids_of(&self.votes);
        let n = ids.len();
        let ghost py = voted_yes(votes@);
        let ghost pm = not_voted(votes@);
        let mut yes: usize = 0;
        let mut missing: usize = 0;
        let mut i: usize = 0;
        while i < n
            invariant
                n == ids@.len(),
                i <= n,
                yes == ids@.take(i as int).filter(py).len(),
                missing == ids@.take(i as int).filter(pm).len(),
                yes + missing <= i,
                py == voted_yes(votes@),
                pm == not_voted(votes@),
            decreases n - i,
        {
            proof {
                assert(ids@.take(i as int + 1) =~= ids@.take(i as int).push(ids@[i as int]));
                ids@.take(i as int).lemma_filter_push(ids@[i as int], py);
                ids@.take(i as int).lemma_filter_push(ids@[i as int], pm);
            }
            let got = votes.get(&ids[i]);
            match got {
                Some(v) => {
                    assert(votes@.contains_key(ids@[i as int]) && votes@[ids@[i as int]] == *v);
                    if *v {
                        yes = yes + 1;
                    }
                },
                None => {
                    assert(!votes@.contains_key(ids@[i as int]));
                    missing = missing + 1;
                },
            }
            i = i + 1;
        }
        proof {
            assert(ids@.take(n as int) =~= ids@);
            lemma_count_distinct(ids@, py);
            lemma_count_distinct(ids@, pm);
            assert(ids@.to_set().filter(py) =~= yes_voters(self.votes@, votes@));
            assert(ids@.to_set().filter(pm) =~= missing_voters(self.votes@, votes@));
        }
        let q = n / 2 + 1;
        if yes >= q {
            return VoteResult::VoteWon;
        }
        if yes + missing >= q {
            return VoteResult::VotePending;
        }
        VoteResult::VoteLost
    }

    /// The voters in increasing order.
    pub fn as_slice(&self) -> (r: Vec<u64>)
        ensures
            r@ == sorted_ids(self.votes@),
            strictly_increasing(r@),
            r@.to_set() == self.votes@,
    {
        let ids = ids_of(&self.votes);
        let r = sort_ids(&ids);
        proof {
            lemma_sorted_ids(r@, self.votes@);
        }
        r
    }

    /// The configuration as text, such as `(1,2,3)`.
    pub fn to_string(&self) -> (r: String)
        ensures
            r@ == majority_text(self.votes@),
    {
        let ids = self.as_slice();
        let mut s = String::new();
        push_char(&mut s, '(');
        push_comma_list(&mut s, &ids);
        push_char(&mut s, ')');
        proof {
            assert(s@ =~= majority_text(self.votes@));
        }
        s
    }

    /// A configuration with the voters of `v`, each once.
    pub fn from_ids(v: &Vec<u64>) -> (r: Self)
        ensures
            r.votes@ == v@.to_set(),
    {
        let mut config = MajorityConfig { votes: HashSet::new() };
        let mut i: usize = 0;
        while i < v.len()
            invariant
                i <= v@.len(),
                config.votes@ == v@.take(i as int).to_set(),
            decreases v@.len() - i,
        {
            config.votes.insert(v[i]);
            proof {
                assert(v@.take(i as int + 1) =~= v@.take(i as int).push(v@[i as int]));
                assert(v@.take(i as int + 1).to_set() =~= v@.take(i as int).to_set().insert(
                    v@[i as int],
                ));
            }
            i = i + 1;
        }
        proof {
            assert(v@.take(v@.len() as int) =~= v@);
        }
        config
    }

    /// A copy of the configuration.
    pub fn copy(&self) -> (r: Self)
        ensures
            r.votes@ == self.votes@,
    {
        MajorityConfig::from_ids(&ids_of(&self.votes))
    }
}

impl<'a> From<&'a Vec<u64>> for MajorityConfig {
    fn from(v: &'a Vec<u64>) -> (r: Self)
        ensures
            r.votes@ == v@.to_set(),
    {
        MajorityConfig::from_ids(v)
    }
}

impl<'a> vstd::std_specs::convert::FromSpecImpl<&'a Vec<u64>> for MajorityConfig {
    open spec fn obeys_from_spec() -> bool {
        false
    }

    open spec fn from_spec(v: &'a Vec<u64>) -> Self {
        choose|m: MajorityConfig| m.votes@ == v@.to_set()
    }
}

impl From<Vec<u64>> for MajorityConfig {
    fn from(v: Vec<u64>) -> (r: Self)
        ensures
            r.votes@ == v@.to_set(),
    {
        MajorityConfig::from_ids(&v)
    }
}

impl vstd::std_specs::convert::FromSpecImpl<Vec<u64>> for MajorityConfig {
    open spec fn obeys_from_spec() -> bool {
        false
    }

    open spec fn from_spec(v: Vec<u64>) -> Self {
        choose|m: MajorityConfig| m.votes@ == v@.to_set()
    }
}

proof fn lemma_filter_all(s: Seq<u64>)
    ensures
        s.filter(|id: u64| true) == s,
    decreases s.len(),
{
    reveal(Seq::filter);
    if s.len() > 0 {
        lemma_filter_all(s.drop_last());
        assert(s.drop_last().push(s.last()) =~= s);
    }
}

/// Whether an id's key is at least `c`.
pub open spec fn at_least(f: spec_fn(u64) -> u64, c: u64) -> spec_fn(u64) -> bool {
    |id: u64| f(id) >= c
}

/// Counts the ids whose key, given in `vals`, is at least `c`.
fn count_at_least(ids: &Vec<u64>, vals: &Vec<u64>, c: u64, Ghost(f): Ghost<spec_fn(u64) -> u64>) -> (count: usize)
    requires
        vals@.len() == ids@.len(),
        forall|j: int| 0 <= j < ids@.len() ==> vals@[j] == f(#[trigger] ids@[j]),
    ensures
        count == ids@.filter(at_least(f, c)).len(),
{
    let n = ids.len();
    let mut count: usize = 0;
    let mut j: usize = 0;
    while j < n
        invariant
            n == ids@.len(),
            j <= n,
            vals@.len() == n,
            forall|m: int| 0 <= m < n ==> vals@[m] == f(#[trigger] ids@[m]),
            count == ids@.take(j as int).filter(at_least(f, c)).len(),
            count <= j,
        decreases n - j,
    {
        proof {
            assert(ids@.take(j as int + 1) =~= ids@.take(j as int).push(ids@[j as int]));
            ids@.take(j as int).lemma_filter_push(ids@[j as int], at_least(f, c));
        }
        if vals[j] >= c {
            count = count + 1;
        }
        j = j + 1;
    }
    proof {
        assert(ids@.take(n as int) =~= ids@);
    }
    count
}

/// Whether an id's key is below `c`.
pub open spec fn below(f: spec_fn(u64) -> u64, c: u64) -> spec_fn(u64) -> bool {
    |id: u64| f(id) < c
}

/// Counts the ids whose key, given in `vals`, is below `c`.
fn count_below(ids: &Vec<u64>, vals: &Vec<u64>, c: u64, Ghost(f): Ghost<spec_fn(u64) -> u64>) -> (count: usize)
    requires
        vals@.len() == ids@.len(),
        forall|j: int| 0 <= j < ids@.len() ==> vals@[j] == f(#[trigger] ids@[j]),
    ensures
        count == ids@.filter(below(f, c)).len(),
        count <= ids@.len(),
{
    let n = ids.len();
    let mut count: usize = 0;
    let mut j: usize = 0;
    while j < n
        invariant
            n == ids@.len(),
            j <= n,
            vals@.len() == n,
            forall|m: int| 0 <= m < n ==> vals@[m] == f(#[trigger] ids@[m]),
            count == ids@.take(j as int).filter(below(f, c)).len(),
            count <= j,
        decreases n - j,
    {
        proof {
            assert(ids@.take(j as int + 1) =~= ids@.take(j as int).push(ids@[j as int]));
            ids@.take(j as int).lemma_filter_push(ids@[j as int], below(f, c));
        }
        if vals[j] < c {
            count = count + 1;
        }
        j = j + 1;
    }
    proof {
        assert(ids@.take(n as int) =~= ids@);
    }
    count
}

/// A strictly increasing sequence holds nothing twice.
proof fn lemma_increasing_no_duplicates(s: Seq<u64>)
    requires
        strictly_increasing(s),
    ensures
        s.no_duplicates(),
{
    assert forall|i: int, j: int| 0 <= i < s.len() && 0 <= j < s.len() && i != j implies s[i]
        != s[j] by {
        if i < j {
            assert(s[i] < s[j]);
        } else {
            assert(s[j] < s[i]);
        }
    }
}

/// The best candidate found by the search in `committed_index` is
/// acknowledged by a quorum, and no larger index is.
proof fn lemma_best_is_committed(
    ids: Seq<u64>,
    f: spec_fn(u64) -> u64,
    vals: Seq<u64>,
    q: nat,
    best: u64,
    found: bool,
)
    requires
        ids.len() > 0,
        q == ids.len() / 2 + 1,
        vals.len() == ids.len(),
        forall|j: int| 0 <= j < ids.len() ==> vals[j] == f(#[trigger] ids[j]),
        found ==> ids.filter(at_least(f, best)).len() >= q,
        forall|j: int|
            0 <= j < ids.len() && ids.filter(at_least(f, #[trigger] vals[j])).len() >= q ==> found
                && vals[j] <= best,
    ensures
        found,
        ids.filter(at_least(f, best)).len() >= q,
        forall|jj: u64| jj > best ==> #[trigger] ids.filter(at_least(f, jj)).len() < q,
{
    // The least key is acknowledged by every voter.
    assert(f(ids[0]) >= 0);
    let m0 = lemma_least_at_least(ids, f, 0);
    lemma_filter_agree(ids, at_least(f, f(ids[m0])), at_least(f, 0));
    lemma_filter_agree(ids, at_least(f, 0), |id: u64| true);
    lemma_filter_all(ids);
    assert(vals[m0] == f(ids[m0]));
    assert(ids.filter(at_least(f, vals[m0])).len() >= q);
    assert forall|jj: u64| jj > best implies #[trigger] ids.filter(at_least(f, jj)).len() < q by {
        if ids.filter(at_least(f, jj)).len() >= q {
            let w = ids.filter(at_least(f, jj))[0];
            assert(ids.filter(at_least(f, jj)).contains(w));
            ids.lemma_filter_contains_rev(at_least(f, jj), w);
            assert(at_least(f, jj)(w));
            let kw = choose|kw: int| 0 <= kw < ids.len() && ids[kw] == w;
            assert(f(ids[kw]) >= jj);
            let m = lemma_least_at_least(ids, f, jj);
            lemma_filter_agree(ids, at_least(f, f(ids[m])), at_least(f, jj));
            assert(vals[m] == f(ids[m]));
            assert(ids.filter(at_least(f, vals[m])).len() >= q);
        }
    }
}

/// Inserting an id that is not there yet, after the ids smaller than it,
/// keeps a sequence strictly increasing and adds the id to its set.
proof fn lemma_insert_increasing(s: Seq<u64>, pos: int, x: u64)
    requires
        strictly_increasing(s),
        0 <= pos <= s.len(),
        !s.contains(x),
        forall|k: int| 0 <= k < pos ==> s[k] < x,
        pos < s.len() ==> !(s[pos] < x),
    ensures
        strictly_increasing(s.insert(pos, x)),
        s.insert(pos, x).to_set() == s.to_set().insert(x),
        s.insert(pos, x).len() == s.len() + 1,
{
    let r = s.insert(pos, x);
    if pos < s.len() {
        assert(s[pos] != x);
    }
    assert forall|a: int, b: int| 0 <= a < b < r.len() implies r[a] < r[b] by {
        if b < pos {
        } else if b == pos {
        } else if a < pos {
            assert(r[b] == s[b - 1]);
            assert(s[pos] > x);
        } else if a == pos {
            assert(r[b] == s[b - 1]);
            assert(s[pos] > x);
        } else {
            assert(r[b] == s[b - 1]);
            assert(r[a] == s[a - 1]);
        }
    }
    assert forall|y: u64| r.to_set().contains(y) <==> s.to_set().insert(x).contains(y) by {
        if r.contains(y) {
            let k = choose|k: int| 0 <= k < r.len() && r[k] == y;
            if k < pos {
                assert(s[k] == y);
            } else if k > pos {
                assert(s[k - 1] == y);
            }
        }
        if s.contains(y) {
            let k = choose|k: int| 0 <= k < s.len() && s[k] == y;
            if k < pos {
                assert(r[k] == y);
            } else {
                assert(r[k + 1] == y);
            }
        }
        if y == x {
            assert(r[pos] == x);
        }
    }
    assert(r.to_set() =~= s.to_set().insert(x));
}

/// The ids of `v`, which holds nothing twice, in increasing order.
pub fn sort_ids(v: &Vec<u64>) -> (r: Vec<u64>)
    requires
        v@.no_duplicates(),
    ensures
        strictly_increasing(r@),
        r@.to_set() == v@.to_set(),
        r@.len() == v@.len(),
{
    let mut r: Vec<u64> = Vec::new();
    let n = v.len();
    let mut i: usize = 0;
    while i < n
        invariant
            n == v@.len(),
            i <= n,
            strictly_increasing(r@),
            r@.to_set() == v@.take(i as int).to_set(),
            r@.len() == i,
            v@.no_duplicates(),
        decreases n - i,
    {
        let x = v[i];
        // Insert x after the elements smaller than it.
        let mut pos: usize = 0;
        while pos < r.len() && r[pos] < x
            invariant
                pos <= r@.len(),
                forall|k: int| 0 <= k < pos ==> r@[k] < x,
            decreases r@.len() - pos,
        {
            pos = pos + 1;
        }
        proof {
            assert(!v@.take(i as int).contains(x)) by {
                if v@.take(i as int).contains(x) {
                    let k = choose|k: int| 0 <= k < i && v@.take(i as int)[k] == x;
                    assert(v@[k] == v@[i as int]);
                }
            }
            assert(!r@.to_set().contains(x));
            assert(!r@.contains(x));
        }
        let ghost old_r = r@;
        r.insert(pos, x);
        proof {
            lemma_insert_increasing(old_r, pos as int, x);
            assert(v@.take(i as int + 1) =~= v@.take(i as int).push(x));
        }
        i = i + 1;
    }
    proof {
        assert(v@.take(n as int) =~= v@);
    }
    r
}

} // verus!
