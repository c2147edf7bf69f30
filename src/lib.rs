//! Worker selection and health tracking for a pool of speech-to-text
//! workers reached over TCP.
//!
//! The library holds the decisions: the control-channel wire format, the
//! per-worker health state and its heartbeat/reconnect transitions, and the
//! round-robin selection with overload-aware fallback. Sockets, timers and
//! task spawning are left to the caller, which performs the actions these
//! functions return and reports what happened.
use vstd::prelude::*;

pub mod balancer;
pub mod guarantees;
pub mod protocol;
pub mod worker;

verus! {

/// The bot's handler for chat-gateway events. Its behaviour lives with the
/// gateway client; the library only names it.
pub struct BotEventHandler;

/// The key under which the gateway's shard manager is kept in the client's
/// shared data.
pub struct ShardManagerWrapper;

} // verus!
