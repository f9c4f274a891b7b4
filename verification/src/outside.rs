//! The calls this library makes into `redis` and `rand`, each with the
//! contract that the library relies on.
use rand::Rng;
use vstd::prelude::*;

verus! {

/// A handle on one Redis instance (`redis::Client`); it holds the parsed
/// connection address and opens no connection by itself.
#[verifier::external_type_specification]
#[verifier::external_body]
pub struct ExClient(redis::Client);

/// The error type of `redis` (`redis::RedisError`).
#[verifier::external_type_specification]
#[verifier::external_body]
pub struct ExRedisError(redis::RedisError);

/// Whether `redis::Client::open` accepts `uri` as a Redis connection URL.
/// The answer comes from `redis::parse_redis_url` and the conversion of the
/// parsed URL into connection information: a pure function of the text of
/// the URL (for the features this crate is built with).
pub uninterp spec fn redis_url_accepted(uri: Seq<char>) -> bool;

/// The client that `redis::Client::open` builds from a URL it accepts: it
/// holds the connection information parsed from the URL and nothing else.
pub uninterp spec fn client_for(uri: Seq<char>) -> redis::Client;

/// Calls `redis::Client::open` on a URL.  Trusted: the call succeeds exactly
/// when the URL is one that `redis` accepts, which is named
/// `redis_url_accepted`, and the client it returns is the one built from
/// that URL, named `client_for`; `open` parses the URL and connects to
/// nothing.
#[verifier::external_body]
pub(crate) fn open_client(uri: &str) -> (res: Result<redis::Client, redis::RedisError>)
    ensures
        res is Ok <==> redis_url_accepted(uri@),
        res matches Ok(c) ==> c == client_for(uri@),
{
    redis::Client::open(uri)
}

/// Draws a number uniformly from `0..bound` with `rand::Rng::gen_range` on
/// the thread-local generator of `rand::thread_rng`.  Trusted: the result
/// lies in the range; `gen_range` panics on an empty range, which
/// `requires` leaves out.  Which number comes out is left open.
#[verifier::external_body]
pub(crate) fn random_below(bound: usize) -> (r: usize)
    requires
        bound > 0,
    ensures
        r < bound,
{
    rand::thread_rng().gen_range(0..bound)
}

} // verus!
