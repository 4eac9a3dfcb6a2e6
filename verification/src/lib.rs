//! A topic-based publish/subscribe bus whose state transitions are verified.
//!
//! Topics are registered under stable integer handles. A message published
//! to a topic goes to each of the topic's subscribers once, is retained in
//! the topic's bounded replay buffer if it has one, and is handed on for
//! broadcast where a channel is attached. Instances on one channel keep in
//! step by flooding their backlogs to newcomers and merging by message id,
//! so that no message reaches a subscriber twice.
//!
//! The library decides; it does not call out. Each operation says which
//! subscriptions to invoke and which envelope to send, and the caller does
//! that.

pub mod constants;
pub mod inner_queue;
pub mod js_utils;
pub mod laws;
pub mod lock;
pub mod model;
pub mod queue;
pub mod ring_buffer;
pub mod types;
pub mod utils;

pub use queue::MessageQueue;
pub use types::{InnerQueue, Message, Topic};
