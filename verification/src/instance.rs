//! What one Redis instance's reply means to the lock, and what makes a
//! lock id.
use vstd::prelude::*;

verus! {

/// The reply of one instance to `SET resource val NX PX ttl`.
#[derive(Debug, Clone, Copy, PartialEq, Eq, Structural)]
pub enum SetReply {
    /// The instance answered `OK`: the key was set.
    Okay,
    /// The instance answered something else (the key already exists).
    Other,
    /// No answer: the connection or the command failed.
    Failed,
}

/// Whether an instance granted the lock: only an `OK` reply does.
pub fn lock_granted(reply: SetReply) -> (granted: bool)
    ensures
        granted <==> reply == SetReply::Okay,
{
    match reply {
        SetReply::Okay => true,
        _ => false,
    }
}

/// Whether an instance released the lock, from the integer that the unlock
/// script returned (`None` when there was no such integer): it deletes the
/// key, and answers `1`, only when the key still holds our value.
pub fn unlock_released(reply: Option<i32>) -> (released: bool)
    ensures
        released <==> reply == Some(1i32),
{
    match reply {
        Some(n) => n == 1,
        None => false,
    }
}

/// The number of random bytes in a lock id.
pub const LOCK_ID_LEN: usize = 20;

/// A lock id from the bytes read off the system's random source: they make
/// one only when exactly `LOCK_ID_LEN` of them could be read.
pub fn lock_id_from_read(bytes: Vec<u8>) -> (id: Option<Vec<u8>>)
    ensures
        id is Some <==> bytes@.len() == LOCK_ID_LEN,
        id matches Some(v) ==> v@ == bytes@,
{
    if bytes.len() == LOCK_ID_LEN {
        Some(bytes)
    } else {
        None
    }
}

} // verus!
