//! Whole calls of `lock` and `unlock` against the Redis instances, as
//! `protocol` describes them: a session answered, request by request, by
//! instances that may or may not be reachable, with a clock that may read
//! anything.
use crate::manager::quorum_for;
use crate::protocol::{compare_and_delete, granted, holders, released, set_nx, Store};
use crate::session::{LockAction, LockEvent, SessionModel, Stage};
use vstd::prelude::*;

verus! {

/// What the world answers to one request of a session: whether the
/// instance asked can be reached, what the clock reads, and the random
/// pause drawn.
pub struct Answer {
    pub reachable: bool,
    pub secs: usize,
    pub subsec_nanos: usize,
    pub draw: nat,
}

/// The session and the instances after the session's next request is
/// answered.  An instance that cannot be reached answers no, and keeps its
/// keys.
pub open spec fn exchange(s: SessionModel, stores: Seq<Store>, a: Answer) -> (SessionModel, Seq<Store>) {
    match s.action() {
        LockAction::StartClock => (s.step(LockEvent::ClockStarted, a.draw), stores),
        LockAction::LockServer(i) => if a.reachable {
            let (st, reply) = set_nx(stores[i as int], s.resource, s.val);
            (s.step(LockEvent::LockReply(granted(reply)), a.draw), stores.update(i as int, st))
        } else {
            (s.step(LockEvent::LockReply(false), a.draw), stores)
        },
        LockAction::ReadClock => (
            s.step(LockEvent::Elapsed { secs: a.secs, subsec_nanos: a.subsec_nanos }, a.draw),
            stores,
        ),
        LockAction::UnlockServer(i) => if a.reachable {
            let (st, answer) = compare_and_delete(stores[i as int], s.resource, s.val);
            (s.step(LockEvent::UnlockReply(released(answer)), a.draw), stores.update(i as int, st))
        } else {
            (s.step(LockEvent::UnlockReply(false), a.draw), stores)
        },
        LockAction::Pause(_) => (s.step(LockEvent::Paused, a.draw), stores),
        _ => (s, stores),
    }
}

/// The session and the instances after a sequence of answers.
pub open spec fn exchanges(s: SessionModel, stores: Seq<Store>, answers: Seq<Answer>) -> (SessionModel, Seq<Store>)
    decreases answers.len(),
{
    if answers.len() == 0 {
        (s, stores)
    } else {
        let (s1, st1) = exchanges(s, stores, answers.drop_last());
        exchange(s1, st1, answers.last())
    }
}

/// The instances after `unlock` ran the unlock script for `key` and `val`
/// on every one of them (as dropping a lock guard does).
pub open spec fn unlock_everywhere(stores: Seq<Store>, key: Seq<u8>, val: Seq<u8>) -> Seq<Store> {
    stores.map_values(|st: Store| compare_and_delete(st, key, val).0)
}

/// Whether an instance holds `key` with value `val`.
pub open spec fn holds(st: Store, key: Seq<u8>, val: Seq<u8>) -> bool {
    st.dom().contains(key) && st[key] == val
}

/// Changing one instance changes the count of holders by what that
/// instance held before and after.
proof fn lemma_holders_update(stores: Seq<Store>, i: int, st: Store, key: Seq<u8>, val: Seq<u8>)
    requires
        0 <= i < stores.len(),
    ensures
        holders(stores.update(i, st), key, val) + (if holds(stores[i], key, val) { 1nat } else { 0nat })
            == holders(stores, key, val) + (if holds(st, key, val) { 1nat } else { 0nat }),
    decreases stores.len(),
{
    let u = stores.update(i, st);
    if i == stores.len() - 1 {
        assert(u.drop_last() =~= stores.drop_last());
    } else {
        assert(u.drop_last() =~= stores.drop_last().update(i, st));
        lemma_holders_update(stores.drop_last(), i, st, key, val);
    }
}

/// No instance holds a key with two values.
proof fn lemma_holders_disjoint(stores: Seq<Store>, key: Seq<u8>, v1: Seq<u8>, v2: Seq<u8>)
    requires
        v1 != v2,
    ensures
        holders(stores, key, v1) + holders(stores, key, v2) <= stores.len(),
    decreases stores.len(),
{
    if stores.len() > 0 {
        lemma_holders_disjoint(stores.drop_last(), key, v1, v2);
    }
}

/// What holds along a call of `lock` that the instances answer: the
/// grants of the current try were all written by it, so at least as many
/// instances hold the session's value; and a lock is held only while a
/// quorum of the instances hold its value.
pub open spec fn call_inv(s: SessionModel, stores: Seq<Store>) -> bool {
    &&& stores.len() == s.servers
    &&& s.servers <= usize::MAX
    &&& (s.stage == Stage::Locking ==> s.next <= s.servers && s.granted <= holders(stores, s.resource, s.val))
    &&& (s.stage == Stage::Unlocking ==> s.next < s.servers)
    &&& (s.stage == Stage::Acquired ==> holders(stores, s.resource, s.val) >= s.quorum)
}

/// One answered request keeps `call_inv`, and an instance that holds the key
/// with another value keeps it.
proof fn lemma_exchange_keeps(s: SessionModel, stores: Seq<Store>, a: Answer, other: Seq<u8>)
    requires
        call_inv(s, stores),
        other != s.val,
    ensures
        ({
            let (t, after) = exchange(s, stores, a);
            &&& call_inv(t, after)
            &&& holders(after, s.resource, other) == holders(stores, s.resource, other)
            &&& t.servers == s.servers && t.quorum == s.quorum
            &&& t.resource == s.resource && t.val == s.val
        }),
{
    let key = s.resource;
    match s.action() {
        LockAction::LockServer(i) => {
            if a.reachable {
                let (st, reply) = set_nx(stores[i as int], key, s.val);
                lemma_holders_update(stores, i as int, st, key, s.val);
                lemma_holders_update(stores, i as int, st, key, other);
            }
        },
        LockAction::UnlockServer(i) => {
            if a.reachable {
                let (st, answer) = compare_and_delete(stores[i as int], key, s.val);
                lemma_holders_update(stores, i as int, st, key, s.val);
                lemma_holders_update(stores, i as int, st, key, other);
                assert(holds(st, key, other) == holds(stores[i as int], key, other));
            }
        },
        _ => {},
    }
}

/// `call_inv` and the holders of another value last through any answers.
proof fn lemma_exchanges_keep(s: SessionModel, stores: Seq<Store>, answers: Seq<Answer>, other: Seq<u8>)
    requires
        call_inv(s, stores),
        other != s.val,
    ensures
        ({
            let (t, after) = exchanges(s, stores, answers);
            &&& call_inv(t, after)
            &&& holders(after, s.resource, other) == holders(stores, s.resource, other)
            &&& t.servers == s.servers && t.quorum == s.quorum
            &&& t.resource == s.resource && t.val == s.val
        }),
    decreases answers.len(),
{
    if answers.len() > 0 {
        lemma_exchanges_keep(s, stores, answers.drop_last(), other);
        let (s1, st1) = exchanges(s, stores, answers.drop_last());
        lemma_exchange_keeps(s1, st1, answers.last(), other);
    }
}

/// A call of `lock` that took the lock leaves a quorum of the instances
/// holding its key with its value, however the instances and the clock
/// answered on the way.
pub proof fn lemma_granted_lock_has_quorum(s: SessionModel, stores: Seq<Store>, answers: Seq<Answer>)
    requires
        s.stage == Stage::Starting || s.stage == Stage::GaveUp,
        stores.len() == s.servers,
        s.servers <= usize::MAX,
    ensures
        ({
            let (t, after) = exchanges(s, stores, answers);
            t.stage == Stage::Acquired ==> holders(after, s.resource, s.val) >= s.quorum
        }),
{
    let other = s.val.push(0u8);
    assert(other.len() != s.val.len());
    lemma_exchanges_keep(s, stores, answers, other);
}

/// Mutual exclusion for a whole call of `lock`: while a quorum of the
/// instances hold the key with another value, no call asking for it with
/// its own value takes the lock, through all its tries, unlocks and pauses,
/// whatever the instances' reachability and the clock.
pub proof fn lemma_lock_call_excluded(
    s: SessionModel,
    stores: Seq<Store>,
    held: Seq<u8>,
    answers: Seq<Answer>,
)
    requires
        s.stage == Stage::Starting || s.stage == Stage::GaveUp,
        stores.len() == s.servers,
        s.servers <= u32::MAX,
        s.quorum == quorum_for(s.servers),
        held != s.val,
        holders(stores, s.resource, held) >= s.quorum,
    ensures
        exchanges(s, stores, answers).0.stage != Stage::Acquired,
{
    lemma_exchanges_keep(s, stores, answers, held);
    let (t, after) = exchanges(s, stores, answers);
    lemma_holders_disjoint(after, s.resource, s.val, held);
}

/// Two calls of `lock` on the same instances with different values: once
/// the first has taken the lock, the second does not, as long as the first
/// lock's keys stay (no unlock, no expiry).
pub proof fn lemma_two_calls_exclusive(
    s1: SessionModel,
    s2: SessionModel,
    stores: Seq<Store>,
    answers1: Seq<Answer>,
    answers2: Seq<Answer>,
)
    requires
        s1.stage == Stage::Starting || s1.stage == Stage::GaveUp,
        s2.stage == Stage::Starting || s2.stage == Stage::GaveUp,
        stores.len() == s1.servers,
        s1.servers == s2.servers,
        s1.servers <= u32::MAX,
        s1.quorum == quorum_for(s1.servers),
        s2.quorum == s1.quorum,
        s2.resource == s1.resource,
        s2.val != s1.val,
        exchanges(s1, stores, answers1).0.stage == Stage::Acquired,
    ensures
        exchanges(s2, exchanges(s1, stores, answers1).1, answers2).0.stage != Stage::Acquired,
{
    lemma_granted_lock_has_quorum(s1, stores, answers1);
    lemma_exchanges_keep(s1, stores, answers1, s2.val);
    lemma_lock_call_excluded(s2, exchanges(s1, stores, answers1).1, s1.val, answers2);
}

/// `unlock` frees every instance that held the key with the lock's value,
/// and leaves every other instance as it was.
pub proof fn lemma_unlock_frees(stores: Seq<Store>, key: Seq<u8>, val: Seq<u8>)
    ensures
        unlock_everywhere(stores, key, val).len() == stores.len(),
        forall|i: int| 0 <= i < stores.len() ==> {
            let after = #[trigger] unlock_everywhere(stores, key, val)[i];
            &&& holds(stores[i], key, val) ==> !after.dom().contains(key)
            &&& !holds(stores[i], key, val) ==> after == stores[i]
        },
{
}

/// The answer that every instance can be reached, with this clock reading.
pub open spec fn all_reachable(secs: usize, subsec_nanos: usize, draw: nat) -> Answer {
    Answer { reachable: true, secs, subsec_nanos, draw }
}

/// Asking free instances, every one grants, and the ones not asked yet stay
/// free.
proof fn lemma_free_sweep(s: SessionModel, stores: Seq<Store>, a: Answer, k: nat)
    requires
        s.wf(),
        s.stage == Stage::Locking,
        a.reachable,
        stores.len() == s.servers,
        k <= s.servers - s.next,
        forall|j: int| s.next <= j < stores.len() ==> !(#[trigger] stores[j]).dom().contains(s.resource),
    ensures
        ({
            let (t, after) = exchanges(s, stores, Seq::new(k, |_j: int| a));
            &&& t.wf()
            &&& t.stage == Stage::Locking
            &&& t.next == s.next + k
            &&& t.granted == s.granted + k
            &&& after.len() == stores.len()
            &&& forall|j: int| t.next <= j < after.len() ==> !(#[trigger] after[j]).dom().contains(s.resource)
            &&& t.servers == s.servers && t.quorum == s.quorum && t.ttl == s.ttl && t.drift == s.drift
            &&& t.resource == s.resource && t.val == s.val
        }),
    decreases k,
{
    if k > 0 {
        let j = (k - 1) as nat;
        lemma_free_sweep(s, stores, a, j);
        assert(Seq::new(k, |_j: int| a).drop_last() =~= Seq::new(j, |_j: int| a));
        let (t, after) = exchanges(s, stores, Seq::new(j, |_j: int| a));
        crate::session::lemma_step_keeps_wf(t, LockEvent::LockReply(true), a.draw);
    } else {
        assert(Seq::new(0, |_j: int| a) =~= Seq::<Answer>::empty());
    }
}

/// Taking the lock again after `unlock`: once a lock with value `held` was
/// released on every instance, and no other value holds the key, a new try
/// in which every instance can be reached takes the lock whenever time is
/// left, with the TTL less the drift and the time spent as its validity.
pub proof fn lemma_relock_after_unlock(
    s: SessionModel,
    stores: Seq<Store>,
    held: Seq<u8>,
    secs: usize,
    subsec_nanos: usize,
    draw: nat,
)
    requires
        s.wf(),
        s.stage == Stage::Starting,
        stores.len() == s.servers,
        0 < s.servers <= u32::MAX,
        s.quorum == quorum_for(s.servers),
        forall|i: int| 0 <= i < stores.len() ==> {
            let st = #[trigger] stores[i];
            st.dom().contains(s.resource) ==> st[s.resource] == held
        },
        s.validity_after(secs as nat, subsec_nanos as nat) > 0,
    ensures
        ({
            let a = all_reachable(secs, subsec_nanos, draw);
            let n = (s.servers + 2) as nat;
            let (t, _) = exchanges(s, unlock_everywhere(stores, s.resource, held), Seq::new(n, |_j: int| a));
            &&& t.stage == Stage::Acquired
            &&& t.validity_time == s.validity_after(secs as nat, subsec_nanos as nat)
        }),
{
    let a = all_reachable(secs, subsec_nanos, draw);
    let freed = unlock_everywhere(stores, s.resource, held);
    assert forall|j: int| 0 <= j < freed.len() implies !(#[trigger] freed[j]).dom().contains(s.resource) by {
        assert(freed[j] == compare_and_delete(stores[j], s.resource, held).0);
    }
    // The clock starts.
    assert(Seq::new(1, |_j: int| a).drop_last() =~= Seq::<Answer>::empty());
    assert(exchanges(s, freed, Seq::<Answer>::empty()) == (s, freed));
    let (s1, st1) = exchanges(s, freed, Seq::new(1, |_j: int| a));
    assert(s1 == s.step(LockEvent::ClockStarted, draw) && st1 == freed);
    crate::session::lemma_step_keeps_wf(s, LockEvent::ClockStarted, draw);
    assert(s1.wf() && s1.stage == Stage::Locking && s1.next == 0 && s1.granted == 0);
    // Every instance grants.
    lemma_free_sweep(s1, st1, a, s1.servers);
    let (s2, st2) = exchanges(s1, st1, Seq::new(s1.servers, |_j: int| a));
    lemma_exchanges_append(s, freed, Seq::new(1, |_j: int| a), Seq::new(s1.servers, |_j: int| a));
    // The clock is read.
    let all = Seq::new((s.servers + 2) as nat, |_j: int| a);
    let first = Seq::new((s.servers + 1) as nat, |_j: int| a);
    assert(Seq::new(1, |_j: int| a) + Seq::new(s1.servers, |_j: int| a) =~= first);
    assert(all.drop_last() =~= first);
    crate::session::lemma_acquire_decision(s2, secs, subsec_nanos, draw);
}

/// Answering two sequences in turn is answering their concatenation.
proof fn lemma_exchanges_append(s: SessionModel, stores: Seq<Store>, x: Seq<Answer>, y: Seq<Answer>)
    ensures
        exchanges(s, stores, x + y) == exchanges(exchanges(s, stores, x).0, exchanges(s, stores, x).1, y),
    decreases y.len(),
{
    if y.len() == 0 {
        assert(x + y =~= x);
    } else {
        assert((x + y).drop_last() =~= x + y.drop_last());
        lemma_exchanges_append(s, stores, x, y.drop_last());
    }
}

} // verus!
