pub mod api;
pub mod channel;
pub mod delivery;
pub mod frame;
pub mod ring;
pub mod throwable;

use vstd::prelude::*;

verus! {

/// Data capacity of the shared region agreed with the host at build time.
pub const DEFAULT_CAPACITY: usize = 32760;

/// Number of slots in the delivery channel.
pub const CHANNEL_CAPACITY: usize = 1000;

/// How long the hot path may wait for a free channel slot before a frame is
/// dropped, in milliseconds.
pub const PUSH_TIMEOUT_MS: u64 = 10000;

} // verus!
