use febft::node_id::NodeId;
use febft::ordering::SeqNo;

#[test]
fn next_counts_up_and_wraps_to_zero() {
    assert_eq!(SeqNo(0).next(), SeqNo(1));
    assert_eq!(SeqNo(41).next(), SeqNo(42));
    assert_eq!(SeqNo(i32::MAX).next(), SeqNo(0));
}

#[test]
fn index_of_the_current_instance_is_zero() {
    assert_eq!(SeqNo(7).index(SeqNo(7)), Some(0));
}

#[test]
fn index_counts_the_distance_up_to_the_high_water_mark() {
    assert_eq!(SeqNo(8).index(SeqNo(5)), Some(3));
    assert_eq!(SeqNo(1505).index(SeqNo(5)), Some(1500));
    assert_eq!(SeqNo(1506).index(SeqNo(5)), None);
}

#[test]
fn index_of_a_stale_sequence_number_is_none() {
    assert_eq!(SeqNo(2).index(SeqNo(5)), None);
    assert_eq!(SeqNo(0).index(SeqNo(10_000)), None);
}

#[test]
fn index_crosses_the_wrap_of_the_counter() {
    assert_eq!(SeqNo(0).index(SeqNo(i32::MAX)), Some(1));
    assert_eq!(SeqNo(3).index(SeqNo(i32::MAX - 1)), Some(5));
    assert_eq!(SeqNo(i32::MAX).index(SeqNo(0)), None);
}

#[test]
fn sequence_numbers_convert_from_and_to_u32() {
    assert_eq!(SeqNo::from(5u32), SeqNo(5));
    assert_eq!(u32::from(SeqNo(5)), 5);
    assert_eq!(SeqNo::from(u32::MAX), SeqNo(-1));
}

#[test]
fn node_ids_convert_and_truncate() {
    assert_eq!(NodeId::from(3u32), NodeId(3));
    assert_eq!(u32::from(NodeId(9)), 9);
    assert_eq!(u64::from(NodeId(9)), 9);
    assert_eq!(NodeId::from_u64(0x1_0000_0002), NodeId(2));
    assert_eq!(NodeId::from_usize(7), NodeId(7));
    assert_eq!(NodeId(4).id(), 4);
}

#[test]
fn targets_keep_the_order_of_the_ids() {
    assert_eq!(NodeId::targets_u32(vec![2, 0, 1]), vec![NodeId(2), NodeId(0), NodeId(1)]);
    assert_eq!(NodeId::targets(vec![0, 1, 2, 3]), vec![NodeId(0), NodeId(1), NodeId(2), NodeId(3)]);
    assert_eq!(NodeId::replicas(4), vec![NodeId(0), NodeId(1), NodeId(2), NodeId(3)]);
    assert!(NodeId::targets(vec![]).is_empty());
}

#[test]
fn clients_start_at_the_first_client_id() {
    assert!(NodeId(1000).is_client(NodeId(1000)));
    assert!(!NodeId(3).is_client(NodeId(1000)));
}

#[test]
fn node_ids_convert_through_from() {
    assert_eq!(NodeId::from(0x1_0000_0003u64), NodeId(3));
    assert_eq!(NodeId::from(9usize), NodeId(9));
    assert_eq!(usize::from(NodeId(9)), 9);
    assert_eq!(SeqNo::zero(), SeqNo(0));
    assert_eq!(SeqNo(7).into_inner(), 7);
}
