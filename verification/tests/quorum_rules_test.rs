use std::collections::HashMap;

use eraft::raft::quorum::joint::JointConfig;
use eraft::raft::quorum::majority::MajorityConfig;
use eraft::raft::quorum::quorum::{string, MapAckIndexer, VoteResult};

fn config(ids: Vec<u64>) -> MajorityConfig {
    MajorityConfig::from(ids)
}

fn acked(pairs: Vec<(u64, u64)>) -> MapAckIndexer {
    let mut m = HashMap::new();
    for (id, idx) in pairs {
        m.insert(id, idx);
    }
    MapAckIndexer(m)
}

fn votes(pairs: Vec<(u64, bool)>) -> HashMap<u64, bool> {
    let mut m = HashMap::new();
    for (id, v) in pairs {
        m.insert(id, v);
    }
    m
}

#[test]
fn quorum_index_string() {
    assert_eq!(string(0), "0");
    assert_eq!(string(1234), "1234");
    assert_eq!(string(u64::MAX), "∞");
    assert_eq!(string(u64::MAX - 1), "18446744073709551614");
}

#[test]
fn majority_committed_index_values() {
    let c = config(vec![1, 2, 3]);
    assert_eq!(c.committed_index(&acked(vec![(1, 5), (2, 3), (3, 9)])), 5);
    assert_eq!(c.committed_index(&acked(vec![(1, 5)])), 0);
    assert_eq!(c.committed_index(&acked(vec![(1, 5), (3, 7)])), 5);
    let c = config(vec![1, 2, 3, 4]);
    assert_eq!(c.committed_index(&acked(vec![(1, 10), (2, 8), (3, 6), (4, 4)])), 6);
    let c = config(vec![7]);
    assert_eq!(c.committed_index(&acked(vec![(7, 12)])), 12);
    // no voters: every index is committed
    let c = MajorityConfig::new();
    assert_eq!(c.committed_index(&acked(vec![(1, 3)])), u64::MAX);
}

#[test]
fn majority_vote_result_values() {
    let c = config(vec![1, 2, 3]);
    assert_eq!(c.vote_result(&votes(vec![])), VoteResult::VotePending);
    assert_eq!(c.vote_result(&votes(vec![(1, true), (2, true)])), VoteResult::VoteWon);
    assert_eq!(c.vote_result(&votes(vec![(1, true), (2, false)])), VoteResult::VotePending);
    assert_eq!(c.vote_result(&votes(vec![(1, false), (2, false)])), VoteResult::VoteLost);
    assert_eq!(c.vote_result(&votes(vec![(1, true), (2, false), (3, false)])), VoteResult::VoteLost);
    // votes of non-voters do not count
    assert_eq!(c.vote_result(&votes(vec![(8, true), (9, true)])), VoteResult::VotePending);
    // an election among no voters is won
    assert_eq!(MajorityConfig::new().vote_result(&votes(vec![(1, false)])), VoteResult::VoteWon);
}

#[test]
fn majority_describe_and_slice() {
    assert_eq!(MajorityConfig::new().describe(&acked(vec![])), "<empty majority quorum>");
    let c = config(vec![3, 1, 2]);
    let want = String::new()
        + "       idx\n"
        + "xx>      5    (id=1)\n"
        + "x>       3    (id=2)\n"
        + "?        0    (id=3)\n";
    assert_eq!(c.describe(&acked(vec![(1, 5), (2, 3)])), want);
    // equal indexes get equal bars; wide indexes are not cut
    let want = String::new()
        + "       idx\n"
        + ">      100    (id=1)\n"
        + ">      100    (id=2)\n"
        + "xx>  123456    (id=3)\n";
    assert_eq!(c.describe(&acked(vec![(1, 100), (2, 100), (3, 123456)])), want);
    assert_eq!(c.as_slice(), vec![1, 2, 3]);
    assert_eq!(c.len(), 3);
    let c = MajorityConfig::from(&vec![2, 2, 5]);
    assert_eq!(c.len(), 2);
    assert_eq!(c.to_string(), "(2,5)");
}

#[test]
fn joint_describe_over_both_halves() {
    let j = JointConfig::new();
    assert_eq!(j.describe(&acked(vec![])), "<empty majority quorum>");
    let j = JointConfig([config(vec![1]), config(vec![2])]);
    let want = String::new() + "      idx\n" + "x>      7    (id=1)\n" + ">       2    (id=2)\n";
    assert_eq!(j.describe(&acked(vec![(1, 7), (2, 2)])), want);
}

#[test]
fn joint_with_empty_half_acts_as_the_other() {
    let j = JointConfig([config(vec![1, 2, 3]), MajorityConfig::new()]);
    let l = acked(vec![(1, 4), (2, 6), (3, 2)]);
    assert_eq!(j.committed(&l), j.0[0].committed_index(&l));
    assert_eq!(j.committed(&l), 4);
    let v = votes(vec![(1, true), (2, false)]);
    assert_eq!(j.vote_result(&v), j.0[0].vote_result(&v));
    assert_eq!(j.vote_result(&v), VoteResult::VotePending);
}

#[test]
fn joint_committed_is_the_smaller() {
    let j = JointConfig([config(vec![1, 2, 3]), config(vec![3, 4, 5])]);
    let l = acked(vec![(1, 9), (2, 9), (3, 5), (4, 3), (5, 3)]);
    assert_eq!(j.committed(&l), 3);
    let mut ids: Vec<u64> = j.ids().into_iter().collect();
    ids.sort();
    assert_eq!(ids, vec![1, 2, 3, 4, 5]);
}

#[test]
fn joint_vote_result_combines_halves() {
    let j = JointConfig([config(vec![1, 2, 3]), config(vec![3, 4, 5])]);
    // both won
    assert_eq!(
        j.vote_result(&votes(vec![(1, true), (2, true), (4, true), (5, true)])),
        VoteResult::VoteWon
    );
    // one lost: lost
    assert_eq!(
        j.vote_result(&votes(vec![(1, true), (2, true), (4, false), (5, false)])),
        VoteResult::VoteLost
    );
    // one won, the other pending: pending
    assert_eq!(j.vote_result(&votes(vec![(1, true), (2, true)])), VoteResult::VotePending);
}

#[test]
fn joint_to_string() {
    let j = JointConfig([config(vec![1, 2]), MajorityConfig::new()]);
    assert_eq!(j.to_string(), "(1,2)");
    let j = JointConfig([config(vec![1, 2]), config(vec![3])]);
    assert_eq!(j.to_string(), "(1,2)&&(3)");
}

#[test]
fn majority_further_votes_keep_the_outcome() {
    let c = config(vec![1, 2, 3]);
    assert_eq!(c.vote_result(&votes(vec![(1, true), (2, true)])), VoteResult::VoteWon);
    assert_eq!(c.vote_result(&votes(vec![(1, true), (2, true), (3, false)])), VoteResult::VoteWon);
    assert_eq!(c.vote_result(&votes(vec![(1, false), (2, false)])), VoteResult::VoteLost);
    assert_eq!(c.vote_result(&votes(vec![(1, false), (2, false), (3, true)])), VoteResult::VoteLost);
}
