# consumer_order_info

Bookkeeping for messages that a consumer group pops from a queue in order, written and verified in
Verus.

- `src/order_model.rs`: what an order info means: which offsets are pending, when they become
  visible again, who has to wait.
- `src/order_info.rs`: the order info of one queue.
- `src/order_table.rs`: the table of order infos, by topic and group, then by queue.
- `src/topic_group.rs`: the keys of the table.
- `src/manager.rs`: the manager of the table.
- `src/clock.rs`: the current time.
- `src/laws.rs`: what holds across operations.
- `app/`: the manager as a broker runs it, behind a mutex, with JSON storage and logging.
- `tests/`: the library on concrete values.

`std::time::SystemTime::elapsed` and `CheetahString::as_str` are taken on trust; their contracts
stand in `src/clock.rs` and `src/topic_group.rs`.
