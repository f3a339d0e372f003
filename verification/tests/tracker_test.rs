use eraft::raft::tracker::inflights::Inflights;
use eraft::raft::tracker::progress::Progress;
use eraft::raft::tracker::state::StateType;

#[test]
fn it_process_string() {
    let mut ins = Inflights::new(1);
    ins.add(123);
    let pr = Progress {
        _match: 1,
        next: 2,
        state: StateType::StateSnapshot,
        pending_snapshot: 123,
        recent_active: false,
        probe_sent: true,
        is_leader: true,
        inflights: ins,
    };
    let exp = "StateSnapshot match=1 next=2 learner paused pendingSnap=123 inactive inflight=1[full]";
    assert_eq!(pr.to_string(), exp);
}

struct Param {
    state: StateType,
    paused: bool,
    w: bool,
}

#[test]
pub fn t_process_is_paused() {
    let tests = vec![
        Param { state: StateType::StateProbe, paused: false, w: false },
        Param { state: StateType::StateProbe, paused: true, w: true },
        Param { state: StateType::StateReplicate, paused: false, w: false },
        Param { state: StateType::StateSnapshot, paused: false, w: true },
        Param { state: StateType::StateReplicate, paused: true, w: false },
    ];
    for tt in tests.iter() {
        let p = Progress {
            _match: 0,
            next: 0,
            state: tt.state,
            pending_snapshot: 0,
            recent_active: false,
            probe_sent: tt.paused,
            is_leader: false,
            inflights: Inflights::new(256),
        };
        assert_eq!(p.is_paused(), tt.w);
    }
}
