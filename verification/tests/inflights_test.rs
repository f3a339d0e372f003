use eraft::raft::tracker::inflights::Inflights;

#[test]
fn inflights_new_is_empty() {
    let ins = Inflights::new(3);
    assert_eq!(ins.count(), 0);
    assert!(!ins.full());
}

#[test]
fn inflights_add_until_full() {
    let mut ins = Inflights::new(3);
    ins.add(1);
    ins.add(2);
    assert_eq!(ins.count(), 2);
    assert!(!ins.full());
    ins.add(3);
    assert_eq!(ins.count(), 3);
    assert!(ins.full());
}

#[test]
fn inflights_free_le_frees_leading_indexes() {
    let mut ins = Inflights::new(10);
    for i in 1..=5u64 {
        ins.add(i * 10);
    }
    // nothing is at most 5
    ins.free_le(5);
    assert_eq!(ins.count(), 5);
    ins.free_le(20);
    assert_eq!(ins.count(), 3);
    ins.free_le(35);
    assert_eq!(ins.count(), 2);
    ins.free_le(100);
    assert_eq!(ins.count(), 0);
    ins.free_le(100);
    assert_eq!(ins.count(), 0);
}

#[test]
fn inflights_wrap_around_the_ring() {
    let mut ins = Inflights::new(4);
    for i in 1..=4u64 {
        ins.add(i);
    }
    assert!(ins.full());
    ins.free_le(2);
    assert_eq!(ins.count(), 2);
    // the next two go round to the front of the buffer
    ins.add(5);
    ins.add(6);
    assert!(ins.full());
    ins.free_le(4);
    assert_eq!(ins.count(), 2);
    ins.free_le(5);
    assert_eq!(ins.count(), 1);
    ins.free_le(6);
    assert_eq!(ins.count(), 0);
}

#[test]
fn inflights_free_first_one() {
    let mut ins = Inflights::new(10);
    ins.free_first_one();
    assert_eq!(ins.count(), 0);
    ins.add(3);
    ins.add(7);
    ins.add(9);
    ins.free_first_one();
    assert_eq!(ins.count(), 2);
    ins.free_first_one();
    assert_eq!(ins.count(), 1);
    ins.free_first_one();
    assert_eq!(ins.count(), 0);
}
