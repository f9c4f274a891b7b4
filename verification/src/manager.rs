//! The lock manager: the set of Redis instances and the retry settings.
use crate::outside::{client_for, open_client, redis_url_accepted};
use vstd::prelude::*;

verus! {

/// How many times `lock` tries by default.
pub const DEFAULT_RETRY_COUNT: u32 = 3;

/// The bound, in milliseconds, of the random pause between tries by default.
pub const DEFAULT_RETRY_DELAY: u32 = 200;

/// The number of instances that must grant a lock: `N/2 + 1` of `N`
/// instances, where `N` is taken as a `u32`.
pub open spec fn quorum_for(n: nat) -> u32 {
    ((n as u32) / 2 + 1) as u32
}

/// The lock manager.
///
/// Holds one client per Redis instance, the quorum, and the retry settings
/// that `lock` falls back on.
#[derive(Debug, Clone)]
pub struct RedisLock {
    /// List of all Redis clients
    pub servers: Vec<redis::Client>,
    quorum: u32,
    retry_count: u32,
    retry_delay: u32,
}

/// What a lock manager decides with: its quorum and retry settings.
pub struct ManagerView {
    pub servers: Seq<redis::Client>,
    pub quorum: u32,
    pub retry_count: u32,
    pub retry_delay: u32,
}

impl View for RedisLock {
    type V = ManagerView;

    closed spec fn view(&self) -> ManagerView {
        ManagerView { servers: self.servers@, quorum: self.quorum, retry_count: self.retry_count, retry_delay: self.retry_delay }
    }
}

/// A lock held on a resource.
pub struct Lock<'a> {
    /// The resource to lock. Will be used as the key in Redis.
    pub resource: Vec<u8>,
    /// The value for this lock.
    pub val: Vec<u8>,
    /// Time the lock is still valid.
    /// Should only be slightly smaller than the requested TTL.
    pub validity_time: usize,
    /// Used to limit the lifetime of a lock to its lock manager.
    pub lock_manager: &'a RedisLock,
}

/// A URL that `redis` refused, by its position in the list given.
#[derive(Debug, Clone, Copy, PartialEq, Eq, Structural)]
pub struct InvalidUri {
    pub index: usize,
}

/// Whether `redis` accepts every URL of the list.
pub open spec fn all_accepted(uris: Seq<String>) -> bool {
    forall|i: int| 0 <= i < uris.len() ==> redis_url_accepted(#[trigger] uris[i]@)
}

impl RedisLock {
    /// Create a new lock manager instance, defined by the given Redis
    /// connection URIs.  Quorum is defined to be N/2+1, with N being the
    /// number of given Redis instances.
    ///
    /// Sample URI: `"redis://127.0.0.1:6379"`
    pub fn new(uris: Vec<String>) -> (rl: RedisLock)
        requires
            all_accepted(uris@),
        ensures
            rl@.servers.len() == uris@.len(),
            forall|i: int| 0 <= i < uris@.len() ==> rl@.servers[i] == client_for(#[trigger] uris@[i]@),
            rl@.quorum == quorum_for(uris@.len()),
            uris@.len() <= u32::MAX ==> rl@.quorum == uris@.len() / 2 + 1,
            rl@.retry_count == DEFAULT_RETRY_COUNT,
            rl@.retry_delay == DEFAULT_RETRY_DELAY,
    {
        let quorum: u32 = (uris.len() as u32) / 2 + 1;
        let mut servers: Vec<redis::Client> = Vec::new();
        let mut k: usize = 0;
        while k < uris.len()
            invariant
                k <= uris.len(),
                servers@.len() == k,
                forall|i: int| 0 <= i < k ==> servers@[i] == client_for(#[trigger] uris@[i]@),
                all_accepted(uris@),
            decreases uris.len() - k,
        {
            match open_client(uris[k].as_str()) {
                Ok(client) => servers.push(client),
                Err(_) => {
                    assert(redis_url_accepted(uris@[k as int]@));
                    assert(false);
                },
            }
            k = k + 1;
        }
        RedisLock { servers, quorum, retry_count: DEFAULT_RETRY_COUNT, retry_delay: DEFAULT_RETRY_DELAY }
    }

    /// Like `new`, but answers with the position of the first URL that
    /// `redis` refuses instead of requiring them all to be valid.
    pub fn try_new(uris: Vec<String>) -> (res: Result<RedisLock, InvalidUri>)
        ensures
            res is Ok <==> all_accepted(uris@),
            res matches Ok(rl) ==> {
                &&& rl@.servers.len() == uris@.len()
                &&& forall|i: int| 0 <= i < uris@.len() ==> rl@.servers[i] == client_for(#[trigger] uris@[i]@)
                &&& rl@.quorum == quorum_for(uris@.len())
                &&& rl@.retry_count == DEFAULT_RETRY_COUNT
                &&& rl@.retry_delay == DEFAULT_RETRY_DELAY
            },
            res matches Err(e) ==> {
                &&& e.index < uris@.len()
                &&& !redis_url_accepted(uris@[e.index as int]@)
                &&& forall|j: int| 0 <= j < e.index ==> redis_url_accepted(#[trigger] uris@[j]@)
            },
    {
        let mut k: usize = 0;
        while k < uris.len()
            invariant
                k <= uris.len(),
                forall|j: int| 0 <= j < k ==> redis_url_accepted(#[trigger] uris@[j]@),
            decreases uris.len() - k,
        {
            if open_client(uris[k].as_str()).is_err() {
                return Err(InvalidUri { index: k });
            }
            k = k + 1;
        }
        Ok(RedisLock::new(uris))
    }

    /// get quorum
    pub fn quorum(&self) -> (q: u32)
        ensures
            q == self@.quorum,
    {
        self.quorum
    }

    /// The number of Redis instances.
    pub fn server_count(&self) -> (n: usize)
        ensures
            n == self@.servers.len(),
    {
        self.servers.len()
    }

    /// The number of tries that `lock` makes by default.
    pub fn retry_count(&self) -> (n: u32)
        ensures
            n == self@.retry_count,
    {
        self.retry_count
    }

    /// The bound of the random pause between tries, in milliseconds.
    pub fn retry_delay(&self) -> (ms: u32)
        ensures
            ms == self@.retry_delay,
    {
        self.retry_delay
    }

    /// Set retry count and retry delay.
    ///
    /// Retry count defaults to `3`.
    /// Retry delay defaults to `200`.
    pub fn set_retry(&mut self, count: u32, delay: u32)
        ensures
            final(self)@ == (ManagerView { retry_count: count, retry_delay: delay, ..old(self)@ }),
    {
        self.retry_count = count;
        self.retry_delay = delay;
    }
}

/// For every number of instances a `u32` can count, the quorum is
/// `N/2 + 1`: the smallest strict majority of the instances.
pub proof fn lemma_quorum_formula(n: nat)
    requires
        n <= u32::MAX,
    ensures
        quorum_for(n) == n / 2 + 1,
        2 * quorum_for(n) > n,
        2 * (quorum_for(n) - 1) <= n,
{
}

/// A quorum is a strict majority of the instances, and there are enough
/// instances to reach it whenever there is at least one: so two sets of
/// instances that both reach the quorum share an instance.
pub proof fn lemma_quorum_is_majority(n: nat, a: nat, b: nat)
    requires
        n <= u32::MAX,
    ensures
        2 * quorum_for(n) > n,
        n > 0 ==> quorum_for(n) <= n,
        a >= quorum_for(n) && b >= quorum_for(n) ==> a + b > n,
{
}

} // verus!
