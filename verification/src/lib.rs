//! A distributed lock over several independent Redis instances, following
//! the Redlock scheme: a lock is held when a majority of the instances
//! granted it and time is left on it.
//!
//! The library decides; the network requests, the clock and the pauses are
//! left to its caller, which a `LockSession` tells what to do next.
pub mod cluster;
pub mod instance;
pub mod manager;
pub mod outside;
pub mod protocol;
pub mod session;
pub mod words;

pub use instance::{lock_granted, lock_id_from_read, unlock_released, SetReply, LOCK_ID_LEN};
pub use protocol::{lock_command, unlock_call, CommandArg, ScriptCall, UNLOCK_SCRIPT};
pub use manager::{InvalidUri, Lock, RedisLock, DEFAULT_RETRY_COUNT, DEFAULT_RETRY_DELAY};
pub use session::{validity_time, LockAction, LockEvent, LockSession, Stage};
pub use words::{chars_from_draws, random_char, CHARSET, DEFAULT_RANDOM_LEN};
