//! Fixed texts and numbers.

use vstd::prelude::*;

verus! {

/// Reported when the host has no window object to ask for an identifier.
pub const ERR_WINDOW_NOT_AVAILABLE: &'static str = "Window not available";

/// Reported when the host's window has no source of unique identifiers.
pub const ERR_CRYPTO_NOT_AVAILABLE: &'static str = "Crypto not available";

/// Reported when the broadcast channel cannot be opened.
pub const ERR_CHANNEL_NOT_AVAILABLE: &'static str = "Failed to create BroadcastChannel";

/// Reported when a handle names no registered topic.
pub const ERR_INVALID_TOPIC: &'static str = "Invalid topic ID";

/// Reported when a replay buffer is asked for with a capacity of 0.
pub const ERR_INVALID_CAPACITY: &'static str = "Buffer capacity must be greater than 0";

/// Reported when the channel refuses a message.
pub const ERR_BROADCAST_FAILED: &'static str = "Failed to broadcast message";

/// Reported when the queue is entered while an operation on it is under way.
pub const ERR_BORROW_FAILED: &'static str = "Failed to borrow queue";

/// The handle that names no topic. Registering yields it where nothing can
/// be registered: on a closed queue, or when every other handle is taken.
pub const NO_TOPIC: u32 = 0xffff_ffff;

/// Capacity of a replay buffer where none is asked for.
pub const DEFAULT_BUFFER_CAPACITY: usize = 100;

} // verus!
