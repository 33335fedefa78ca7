//! A streaming chat gateway library: a bounded per-session history ring that
//! accumulates assistant deltas into whole turns, a client registry mapping
//! session ids to outbound event channels, provider adapters that classify
//! upstream streaming events into semantic actions, tool-call reassembly, and
//! the session worker state machine that ties them together.

pub mod claude;
pub mod codec;
pub mod events;
pub mod marker;
pub mod memory;
pub mod openai;
pub mod queue;
pub mod registry;
pub mod request;
pub mod requests;
pub mod text;
pub mod tool;
pub mod worker;

use vstd::prelude::*;

verus! {

/// Capacity of a per-session history ring: the number of whole turns kept.
pub const HISTORY_CAPACITY: usize = 3;

} // verus!
