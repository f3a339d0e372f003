use eraft::raft::quorum::majority::MajorityConfig;

#[test]
fn t_majority() {
    let mut majority = MajorityConfig::new();
    majority.votes.insert(0);
    majority.votes.insert(1);
    assert_eq!("(0,1)", majority.to_string());
    let majority = MajorityConfig::new();
    assert_eq!("()", majority.to_string());

    let v = &vec![0, 1, 2];
    let majority: MajorityConfig = v.into();
    assert_eq!("(0,1,2)", majority.to_string());
    let majority: MajorityConfig = v.into();
    assert_eq!("(0,1,2)", majority.to_string());

    let mut majority = MajorityConfig::new();
    majority.votes.insert(0);
    assert_eq!(vec![0], majority.as_slice());
}
