use eraft::raft::tracker::inflights::Inflights;
use eraft::raft::tracker::progress::{Progress, ProgressMap};
use eraft::raft::tracker::state::StateType;

fn progress(state: StateType, m: u64, next: u64) -> Progress {
    Progress {
        _match: m,
        next,
        state,
        pending_snapshot: 0,
        recent_active: true,
        probe_sent: false,
        is_leader: false,
        inflights: Inflights::new(2),
    }
}

#[test]
fn progress_become_probe_from_snapshot() {
    let mut p = progress(StateType::StateReplicate, 1, 5);
    p.become_snapshot(10);
    assert_eq!(p.state, StateType::StateSnapshot);
    assert_eq!(p.pending_snapshot, 10);
    p.become_probe();
    assert_eq!(p.state, StateType::StateProbe);
    assert_eq!(p.next, 11);
    assert_eq!(p.pending_snapshot, 0);
    assert_eq!(p._match, 1);
}

#[test]
fn progress_become_probe_and_replicate() {
    let mut p = progress(StateType::StateReplicate, 4, 9);
    p.become_probe();
    assert_eq!(p.next, 5);
    p.probe_sent = true;
    p.become_replicate();
    assert_eq!(p.state, StateType::StateReplicate);
    assert_eq!(p.next, 5);
    assert!(!p.probe_sent);
}

#[test]
fn progress_maybe_update() {
    let mut p = progress(StateType::StateProbe, 3, 4);
    p.probe_sent = true;
    assert!(!p.maybe_update(2));
    assert_eq!(p._match, 3);
    assert_eq!(p.next, 4);
    assert!(p.probe_sent);
    assert!(p.maybe_update(7));
    assert_eq!(p._match, 7);
    assert_eq!(p.next, 8);
    assert!(!p.probe_sent);
    p.optimistic_update(12);
    assert_eq!(p.next, 13);
    assert_eq!(p._match, 7);
}

#[test]
fn progress_maybe_decr_to() {
    // replicating: a rejection at or below the match is stale
    let mut p = progress(StateType::StateReplicate, 5, 10);
    assert!(!p.maybe_decr_to(5, 5));
    assert_eq!(p.next, 10);
    assert!(p.maybe_decr_to(9, 9));
    assert_eq!(p.next, 6);
    // probing: only a rejection of next - 1 counts
    let mut p = progress(StateType::StateProbe, 0, 10);
    assert!(!p.maybe_decr_to(5, 5));
    assert_eq!(p.next, 10);
    p.probe_sent = true;
    assert!(p.maybe_decr_to(9, 3));
    assert_eq!(p.next, 4);
    assert!(!p.probe_sent);
    let mut p = progress(StateType::StateProbe, 0, 1);
    assert!(p.maybe_decr_to(0, 0));
    assert_eq!(p.next, 1);
}

#[test]
fn progress_paused_when_inflights_full() {
    let mut p = progress(StateType::StateReplicate, 0, 1);
    assert!(!p.is_paused());
    p.inflights.add(1);
    p.inflights.add(2);
    assert!(p.is_paused());
    assert_eq!(p.to_string(), "StateReplicate match=0 next=1 paused inflight=2[full]");
}

#[test]
fn progress_to_string_plain() {
    let p = progress(StateType::StateProbe, 2, 3);
    assert_eq!(p.to_string(), "StateProbe match=2 next=3");
}

#[test]
fn progress_map_to_string_sorted() {
    let mut m = ProgressMap::default();
    m.0.insert(9, progress(StateType::StateProbe, 0, 1));
    m.0.insert(2, progress(StateType::StateProbe, 0, 1));
    m.0.insert(5, progress(StateType::StateProbe, 0, 1));
    assert_eq!(m.to_string(), "0: 2\n1: 5\n2: 9\n");
}
