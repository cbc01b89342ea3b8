//! Bookkeeping for messages that a consumer group pops in order: which offsets of the last batch
//! are acknowledged, when the others become visible again, and who has to wait for them.

pub mod clock;
pub mod field_laws;
pub mod laws;
pub mod manager;
pub mod order_info;
pub mod order_model;
pub mod order_table;
pub mod topic_group;

pub use manager::ConsumerOrderInfoManager;
pub use order_info::OrderInfo;
pub use order_table::ConsumerOrderInfoWrapper;
pub use order_table::TopicGroupOrders;
pub use order_table::UpdateOutcome;
