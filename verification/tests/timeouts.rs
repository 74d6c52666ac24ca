use febft::crypto::hash::Digest;
use febft::node_id::NodeId;
use febft::ordering::SeqNo;
use febft::timeouts::{ClientRqInfo, TimeoutKind, Timeouts};

fn info(tag: u8) -> ClientRqInfo {
    ClientRqInfo { digest: Digest([tag; 32]), sender: NodeId(1000), session: SeqNo(0), operation_id: SeqNo(tag as i32) }
}

fn tags(timers: &Vec<febft::timeouts::Timeout>) -> Vec<i32> {
    timers.iter().map(|t| t.info.operation_id.0).collect()
}

#[test]
fn timers_expire_in_the_order_of_their_deadlines() {
    let mut t = Timeouts::new();
    assert!(t.next_deadline().is_none());
    t.arm(TimeoutKind::ClientRequest, info(1), 100, 50);
    t.arm(TimeoutKind::ClientRequest, info(2), 100, 10);
    t.arm(TimeoutKind::ViewChange, info(3), 100, 50);
    t.arm(TimeoutKind::ClientRequest, info(4), 100, 30);
    assert_eq!(t.len(), 4);
    assert_eq!(t.next_deadline(), Some(110));
    assert!(t.tick(109).is_empty());
    assert_eq!(tags(&t.tick(130)), vec![2, 4]);
    assert_eq!(t.next_deadline(), Some(150));
    let rest = t.tick(150);
    assert_eq!(tags(&rest), vec![1, 3]);
    assert_eq!(rest[1].kind, TimeoutKind::ViewChange);
    assert_eq!(rest[0].deadline, 150);
    assert_eq!(t.len(), 0);
}

#[test]
fn timers_that_expire_together_fire_as_a_batch() {
    let mut t = Timeouts::new();
    for tag in 1..=5 {
        t.arm(TimeoutKind::ClientRequest, info(tag), 0, 1000);
    }
    assert!(t.tick(999).is_empty());
    assert_eq!(tags(&t.tick(1000)), vec![1, 2, 3, 4, 5]);
}

#[test]
fn cancel_disarms_the_timers_of_a_request() {
    let mut t = Timeouts::new();
    t.arm(TimeoutKind::ClientRequest, info(1), 0, 10);
    t.arm(TimeoutKind::ClientRequest, info(2), 0, 20);
    t.arm(TimeoutKind::ViewChange, info(1), 0, 30);
    assert_eq!(t.cancel(&info(1)), 2);
    assert_eq!(t.cancel(&info(9)), 0);
    assert_eq!(tags(&t.tick(u64::MAX)), vec![2]);
}

#[test]
fn a_deadline_beyond_the_end_of_time_is_the_end_of_time() {
    let mut t = Timeouts::new();
    t.arm(TimeoutKind::ClientRequest, info(1), u64::MAX - 1, 10);
    assert_eq!(t.next_deadline(), Some(u64::MAX));
}
