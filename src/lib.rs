//! Subscription and monitored item engine: a registry of subscriptions, each
//! owning a set of monitored items with bounded value queues, and a publish
//! cycle that turns queued values into gap-free numbered notifications.
pub mod error;
pub mod monitored_item;
pub mod notification;
pub mod retransmission;
pub mod run;
pub mod subscription;
pub mod subscription_state;
