use std::collections::HashMap;

use consumer_order_info::clock::clamp_millis;
use consumer_order_info::OrderInfo;

/// A batch of the offsets 100, 101 and 105, popped by "first" at 1000 for 3000 milliseconds.
fn batch() -> OrderInfo {
    OrderInfo {
        pop_time: 1000,
        invisible_time: Some(3000),
        offset_list: OrderInfo::build_offset_list(vec![100, 101, 105]),
        offset_next_visible_time: HashMap::new(),
        offset_consumed_count: HashMap::new(),
        last_consume_timestamp: 0,
        commit_offset_bit: 0,
        attempt_id: "first".to_string(),
    }
}

#[test]
fn build_offset_list_with_single_element() {
    let queue_offset_list = vec![10];
    let expected = vec![10];
    assert_eq!(OrderInfo::build_offset_list(queue_offset_list), expected);
}

#[test]
fn need_block_returns_false_for_empty_offset_list() {
    let mut order_info = OrderInfo {
        pop_time: 1000,
        invisible_time: Some(3000),
        offset_list: vec![],
        offset_next_visible_time: HashMap::new(),
        offset_consumed_count: HashMap::new(),
        last_consume_timestamp: 0,
        commit_offset_bit: 0,
        attempt_id: "test".to_string(),
    };
    assert!(!order_info.need_block("another_test", 2000));
}

#[test]
fn get_lock_free_timestamp_returns_none_for_empty_offset_list() {
    let order_info = OrderInfo {
        pop_time: 1000,
        invisible_time: Some(3000),
        offset_list: vec![],
        offset_next_visible_time: HashMap::new(),
        offset_consumed_count: HashMap::new(),
        last_consume_timestamp: 0,
        commit_offset_bit: 0,
        attempt_id: "test".to_string(),
    };
    assert_eq!(order_info.get_lock_free_timestamp(), None);
}

#[test]
fn get_next_offset_returns_minus_two_for_empty_offset_list() {
    let order_info = OrderInfo {
        pop_time: 1000,
        invisible_time: Some(3000),
        offset_list: vec![],
        offset_next_visible_time: HashMap::new(),
        offset_consumed_count: HashMap::new(),
        last_consume_timestamp: 0,
        commit_offset_bit: 0,
        attempt_id: "test".to_string(),
    };
    assert_eq!(order_info.get_next_offset(), -2);
}

#[test]
fn merge_offset_consumed_count_with_same_attempt_id() {
    let mut order_info = OrderInfo {
        pop_time: 0,
        invisible_time: None,
        offset_list: vec![1, 2, 3],
        offset_next_visible_time: HashMap::new(),
        offset_consumed_count: HashMap::new(),
        last_consume_timestamp: 0,
        commit_offset_bit: 0,
        attempt_id: "test".to_string(),
    };
    let pre_offset_list = vec![1, 2];
    let prev_offset_consumed_count = HashMap::from([(1, 1), (2, 1)]);
    order_info.merge_offset_consumed_count("test", pre_offset_list, prev_offset_consumed_count);
    assert_eq!(order_info.offset_consumed_count.get(&1), Some(&1));
    assert_eq!(order_info.offset_consumed_count.get(&2), Some(&1));
}

#[test]
fn build_offset_list_stores_distances_from_the_first() {
    assert_eq!(
        OrderInfo::build_offset_list(vec![100, 101, 105, 100]),
        vec![100, 1, 5, 0]
    );
}

#[test]
fn queue_offsets_are_those_the_list_was_built_from() {
    let offsets = vec![7, 9, u64::MAX, 7];
    let list = OrderInfo::build_offset_list(offsets.clone());
    for (i, offset) in offsets.iter().enumerate() {
        assert_eq!(OrderInfo::get_queue_offset_from_list(&list, i), *offset);
    }
    let info = OrderInfo {
        offset_list: list,
        ..OrderInfo::default()
    };
    for (i, offset) in offsets.iter().enumerate() {
        assert_eq!(info.get_queue_offset(i), *offset);
    }
}

#[test]
fn is_not_ack_reads_the_bitmap() {
    let info = OrderInfo {
        commit_offset_bit: 0b101 | (1 << 63),
        ..batch()
    };
    assert!(!info.is_not_ack(0));
    assert!(info.is_not_ack(1));
    assert!(!info.is_not_ack(2));
    assert!(info.is_not_ack(62));
    assert!(!info.is_not_ack(63));
}

#[test]
fn is_not_ack_past_the_bitmap() {
    let info = batch();
    assert!(info.is_not_ack(63));
    assert!(!info.is_not_ack(64));
    assert!(!info.is_not_ack(usize::MAX));
}

#[test]
fn setting_one_bit_acknowledges_one_entry() {
    let mut info = batch();
    info.commit_offset_bit |= 1 << 1;
    assert!(info.is_not_ack(0));
    assert!(!info.is_not_ack(1));
    assert!(info.is_not_ack(2));
}

#[test]
fn next_offset_is_the_first_not_acknowledged() {
    let mut info = batch();
    assert_eq!(info.get_next_offset(), 100);
    info.commit_offset_bit = 0b010;
    assert_eq!(info.get_next_offset(), 100);
    info.commit_offset_bit = 0b011;
    assert_eq!(info.get_next_offset(), 105);
}

#[test]
fn next_offset_after_a_whole_batch() {
    let info = OrderInfo {
        commit_offset_bit: 0b111,
        ..batch()
    };
    assert_eq!(info.get_next_offset(), 106);
}

#[test]
fn next_offset_of_a_batch_longer_than_the_bitmap() {
    let info = OrderInfo {
        offset_list: OrderInfo::build_offset_list((0..70).collect()),
        commit_offset_bit: u64::MAX,
        ..batch()
    };
    assert_eq!(info.get_next_offset(), 70);
}

#[test]
fn next_offset_past_the_signed_range() {
    let info = OrderInfo {
        offset_list: vec![u64::MAX],
        ..batch()
    };
    assert_eq!(info.get_next_offset(), -1);
    let info = OrderInfo {
        offset_list: vec![1 << 63],
        commit_offset_bit: 1,
        ..batch()
    };
    assert_eq!(info.get_next_offset(), i64::MIN + 1);
}

#[test]
fn need_block_until_the_batch_is_visible() {
    let mut info = batch();
    assert!(info.need_block_at("second", 500, 3999));
    assert!(!info.need_block_at("second", 500, 4000));
    assert_eq!(info.invisible_time, Some(3000));
}

#[test]
fn need_block_never_for_the_own_attempt() {
    let mut info = OrderInfo {
        invisible_time: None,
        ..batch()
    };
    assert!(!info.need_block_at("first", 500, 0));
    assert_eq!(info.invisible_time, None);
}

#[test]
fn need_block_takes_over_a_missing_invisible_time() {
    for missing in [None, Some(0)] {
        let mut info = OrderInfo {
            invisible_time: missing,
            ..batch()
        };
        assert!(info.need_block_at("second", 500, 1499));
        assert_eq!(info.invisible_time, Some(500));
        assert!(!info.need_block_at("third", 9000, 1500));
        assert_eq!(info.invisible_time, Some(500));
    }
}

#[test]
fn need_block_not_for_an_acknowledged_batch() {
    let mut info = OrderInfo {
        commit_offset_bit: 0b111,
        ..batch()
    };
    assert!(!info.need_block_at("second", 500, 0));
}

#[test]
fn need_block_by_the_visible_time_of_an_offset() {
    let mut info = batch();
    info.update_offset_next_visible_time(105, 9000);
    assert!(info.need_block_at("second", 500, 8999));
    assert!(!info.need_block_at("second", 500, 9000));
    info.update_offset_next_visible_time(100, 10);
    info.update_offset_next_visible_time(101, 10);
    info.update_offset_next_visible_time(105, 10);
    assert!(!info.need_block_at("second", 500, 10));
    assert!(info.need_block_at("second", 500, 9));
}

#[test]
fn need_block_looks_no_further_than_the_first_invisible_offset() {
    let mut info = OrderInfo {
        offset_list: vec![1, u64::MAX],
        ..batch()
    };
    assert!(info.need_block_at("second", 500, 0));
}

#[test]
fn need_block_by_the_current_time() {
    let mut info = batch();
    assert!(!info.need_block("second", 500));
    info.update_offset_next_visible_time(101, u64::MAX);
    assert!(info.need_block("second", 500));
}

#[test]
fn update_replaces_the_visible_time_of_one_offset() {
    let mut info = batch();
    info.update_offset_next_visible_time(101, 5);
    info.update_offset_next_visible_time(101, 6);
    assert_eq!(info.offset_next_visible_time, HashMap::from([(101, 6)]));
}

#[test]
fn lock_free_at_the_first_invisible_offset() {
    let mut info = batch();
    assert_eq!(info.get_lock_free_timestamp_at(3999), Some(4000));
    assert_eq!(info.get_lock_free_timestamp_at(4000), Some(4000));
    assert_eq!(info.get_lock_free_timestamp_at(4001), Some(4001));
    info.update_offset_next_visible_time(100, 20);
    info.update_offset_next_visible_time(101, 7000);
    assert_eq!(info.get_lock_free_timestamp_at(30), Some(7000));
    info.commit_offset_bit = 0b010;
    assert_eq!(info.get_lock_free_timestamp_at(30), Some(4000));
}

#[test]
fn lock_free_at_once_when_acknowledged() {
    let info = OrderInfo {
        commit_offset_bit: 0b111,
        invisible_time: None,
        ..batch()
    };
    assert_eq!(info.get_lock_free_timestamp_at(12), Some(12));
}

#[test]
fn no_lock_free_timestamp_without_an_invisible_time() {
    for missing in [None, Some(0)] {
        let info = OrderInfo {
            invisible_time: missing,
            ..batch()
        };
        assert_eq!(info.get_lock_free_timestamp_at(12), None);
    }
}

#[test]
fn lock_free_by_the_current_time() {
    let info = batch();
    let now = info.get_lock_free_timestamp().unwrap();
    // The batch has been visible since 1970, so the clock is read; 1.6e12 is in 2020.
    assert!(now > 1_600_000_000_000);
    let later = info.get_lock_free_timestamp().unwrap();
    assert!(later >= now);
}

#[test]
fn lock_is_in_the_future_as_long_as_others_wait() {
    let mut info = batch();
    info.update_offset_next_visible_time(105, 6000);
    for now in [0, 3999, 4000, 5999, 6000, 7000] {
        let blocked = info.need_block_at("second", 500, now);
        assert_eq!(info.get_lock_free_timestamp_at(now).unwrap() > now, blocked);
    }
}

#[test]
fn merge_counts_redelivered_offsets_once_more() {
    let mut info = OrderInfo {
        offset_consumed_count: HashMap::from([(1, 9)]),
        ..batch()
    };
    // The previous batch is 99, 101 and 105.
    info.merge_offset_consumed_count(
        "zeroth",
        vec![99, 2, 6],
        HashMap::from([(99, 4), (101, 2), (100, 8)]),
    );
    assert_eq!(
        info.offset_consumed_count,
        HashMap::from([(101, 3), (105, 1)])
    );
    assert_eq!(info.offset_list, vec![100, 1, 5]);
    assert_eq!(info.attempt_id, "first");
}

#[test]
fn merge_with_an_empty_batch_clears_the_counts() {
    let mut info = batch();
    info.merge_offset_consumed_count("zeroth", vec![], HashMap::from([(100, 1)]));
    assert!(info.offset_consumed_count.is_empty());
}

#[test]
fn default_order_info_is_empty() {
    let info = OrderInfo::default();
    assert_eq!(info.pop_time, 0);
    assert_eq!(info.invisible_time, None);
    assert!(info.offset_list.is_empty());
    assert_eq!(info.attempt_id, "");
}

#[test]
fn clone_keeps_every_field() {
    let mut info = batch();
    info.update_offset_next_visible_time(101, 6);
    let copy = info.clone();
    assert_eq!(copy.pop_time, 1000);
    assert_eq!(copy.invisible_time, Some(3000));
    assert_eq!(copy.offset_list, vec![100, 1, 5]);
    assert_eq!(copy.offset_next_visible_time, HashMap::from([(101, 6)]));
    assert_eq!(copy.attempt_id, "first");
}

#[test]
fn clock_readings_are_clamped() {
    assert_eq!(clamp_millis(None), 0);
    assert_eq!(clamp_millis(Some(17)), 17);
    assert_eq!(clamp_millis(Some(u64::MAX as u128)), u64::MAX);
    assert_eq!(clamp_millis(Some(u64::MAX as u128 + 1)), u64::MAX);
}
