use std::collections::HashMap;

use cheetah_string::CheetahString;

use consumer_order_info::topic_group::build_key;
use consumer_order_info::topic_group::build_key_from_text;
use consumer_order_info::ConsumerOrderInfoManager;
use consumer_order_info::ConsumerOrderInfoWrapper;
use consumer_order_info::OrderInfo;
use consumer_order_info::UpdateOutcome;

fn popped_at(pop_time: u64) -> OrderInfo {
    OrderInfo {
        pop_time,
        offset_list: vec![100, 1],
        ..OrderInfo::default()
    }
}

/// Two keys, the first with two queues.
fn table() -> ConsumerOrderInfoWrapper {
    let mut table = ConsumerOrderInfoWrapper::new();
    table.insert(
        "orders@billing".to_string(),
        HashMap::from([(0, popped_at(1000)), (3, popped_at(2000))]),
    );
    table.insert(
        "orders@shipping".to_string(),
        HashMap::from([(0, popped_at(1000))]),
    );
    table
}

fn manager() -> ConsumerOrderInfoManager {
    ConsumerOrderInfoManager {
        consumer_order_info_wrapper: table(),
    }
}

fn visible_times(table: &ConsumerOrderInfoWrapper, key: &str, queue_id: i32) -> HashMap<u64, u64> {
    table.get(&key.to_string()).unwrap()[&queue_id]
        .offset_next_visible_time
        .clone()
}

#[test]
fn key_joins_topic_and_group() {
    let topic = CheetahString::from("orders");
    let group = CheetahString::from("billing");
    assert_eq!(build_key(&topic, &group), "orders@billing");
    assert_eq!(build_key(&group, &topic), "billing@orders");
    assert_eq!(build_key_from_text("orders", "billing"), "orders@billing");
}

#[test]
fn key_of_every_way_to_store_a_name() {
    let long = "a topic name that is too long to be stored inline, with an umlaut: ä";
    for topic in [
        CheetahString::from(long),
        CheetahString::from_string(long.to_string()),
        CheetahString::from_static_str(long),
        CheetahString::try_from_vec(long.as_bytes().to_vec()).unwrap(),
    ] {
        assert_eq!(build_key(&topic, &CheetahString::empty()), format!("{}@", long));
    }
}

#[test]
fn keys_meet_where_the_separator_is_in_a_name() {
    assert_eq!(
        build_key_from_text("a@b", "c"),
        build_key_from_text("a", "b@c")
    );
    assert_ne!(
        build_key_from_text("ab", "c"),
        build_key_from_text("a", "bc")
    );
}

#[test]
fn update_sets_the_visible_time() {
    let mut manager = manager();
    let outcome = manager.update_next_visible_time(
        &CheetahString::from("orders"),
        &CheetahString::from("billing"),
        3,
        101,
        2000,
        7777,
    );
    assert_eq!(outcome, UpdateOutcome::Updated);
    let table = &manager.consumer_order_info_wrapper;
    assert_eq!(
        visible_times(table, "orders@billing", 3),
        HashMap::from([(101, 7777)])
    );
    assert!(visible_times(table, "orders@billing", 0).is_empty());
    assert!(visible_times(table, "orders@shipping", 0).is_empty());
}

#[test]
fn update_refuses_an_unknown_key() {
    let mut manager = manager();
    let outcome = manager.update_next_visible_time(
        &CheetahString::from("billing"),
        &CheetahString::from("orders"),
        0,
        100,
        1000,
        7777,
    );
    assert_eq!(outcome, UpdateOutcome::NoSuchKey);
    let table = &manager.consumer_order_info_wrapper;
    assert!(visible_times(table, "orders@billing", 0).is_empty());
}

#[test]
fn update_refuses_an_unknown_queue() {
    let mut table = table();
    let key = "orders@shipping".to_string();
    let outcome = table.update_next_visible_time(&key, 3, 100, 1000, 7777);
    assert_eq!(outcome, UpdateOutcome::NoSuchQueue);
    assert_eq!(table.get(&key).unwrap().len(), 1);
}

#[test]
fn update_refuses_another_pop_time() {
    let mut table = table();
    let key = "orders@billing".to_string();
    let outcome = table.update_next_visible_time(&key, 0, 100, 1001, 7777);
    assert_eq!(outcome, UpdateOutcome::PopTimeMismatch);
    assert!(visible_times(&table, "orders@billing", 0).is_empty());
}

#[test]
fn update_may_be_repeated() {
    let mut table = table();
    let key = "orders@billing".to_string();
    for _ in 0..2 {
        let outcome = table.update_next_visible_time(&key, 0, 100, 1000, 7777);
        assert_eq!(outcome, UpdateOutcome::Updated);
        assert_eq!(
            visible_times(&table, "orders@billing", 0),
            HashMap::from([(100, 7777)])
        );
    }
}

#[test]
fn insert_replaces_what_was_under_the_key() {
    let mut table = table();
    let key = "orders@billing".to_string();
    table.insert(key.clone(), HashMap::from([(5, popped_at(1))]));
    assert_eq!(table.entries().len(), 2);
    assert_eq!(table.get(&key).unwrap().len(), 1);
    assert_eq!(table.get(&key).unwrap()[&5].pop_time, 1);
    assert!(table.get(&"nobody@home".to_string()).is_none());
}

#[test]
fn clone_of_a_table_has_the_same_entries() {
    let mut table = table();
    let copy = table.clone();
    table.update_next_visible_time(&"orders@billing".to_string(), 0, 100, 1000, 7777);
    assert_eq!(copy.entries().len(), 2);
    assert!(visible_times(&copy, "orders@billing", 0).is_empty());
    assert_eq!(copy.get(&"orders@billing".to_string()).unwrap()[&3].pop_time, 2000);
}

#[test]
fn decode_replaces_the_table() {
    let mut manager = manager();
    let mut stored = ConsumerOrderInfoWrapper::new();
    stored.insert("stored@group".to_string(), HashMap::new());
    assert!(manager.decode("{...}", Some(stored)));
    let table = &manager.consumer_order_info_wrapper;
    assert_eq!(table.entries().len(), 1);
    assert!(table.get(&"stored@group".to_string()).is_some());
}

#[test]
fn decode_of_nothing_keeps_the_table() {
    let mut manager = manager();
    assert!(!manager.decode("", Some(ConsumerOrderInfoWrapper::new())));
    assert!(!manager.decode("", Some(table())));
    assert!(!manager.decode("{}", Some(ConsumerOrderInfoWrapper::default())));
    assert!(!manager.decode("no table", None));
    assert_eq!(manager.consumer_order_info_wrapper.entries().len(), 2);
}

#[test]
fn default_manager_is_empty() {
    assert!(ConsumerOrderInfoManager::default()
        .consumer_order_info_wrapper
        .is_empty());
    assert!(!manager().consumer_order_info_wrapper.is_empty());
}
