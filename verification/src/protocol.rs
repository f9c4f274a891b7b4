//! What is sent to each Redis instance, what an instance is taken to do
//! with it, and the laws of the lock that follow.
use crate::instance::SetReply;
use crate::manager::quorum_for;
use crate::session::{
    count_true, lemma_acquire_decision, lemma_lock_sweep, lock_replies, LockEvent, SessionModel, Stage,
};
use vstd::prelude::*;

verus! {

/// One argument of a Redis command.
#[derive(Debug, Clone, PartialEq, Eq)]
pub enum CommandArg {
    /// Sent as these bytes.
    Bytes(Vec<u8>),
    /// A number, sent in decimal.
    Number(usize),
}

/// A command argument, as a value.
pub enum ArgValue {
    Bytes(Seq<u8>),
    Number(nat),
}

impl View for CommandArg {
    type V = ArgValue;

    open spec fn view(&self) -> ArgValue {
        match self {
            CommandArg::Bytes(b) => ArgValue::Bytes(b@),
            CommandArg::Number(n) => ArgValue::Number(*n as nat),
        }
    }
}

/// The command that takes the lock on one instance:
/// `SET resource val NX PX ttl`, which sets the key to the value, with an
/// expiry of `ttl` milliseconds, only when the key does not exist.
pub open spec fn lock_command_args(resource: Seq<u8>, val: Seq<u8>, ttl: nat) -> Seq<ArgValue> {
    seq![
        ArgValue::Bytes(seq!['S' as u8, 'E' as u8, 'T' as u8]),
        ArgValue::Bytes(resource),
        ArgValue::Bytes(val),
        ArgValue::Bytes(seq!['n' as u8, 'x' as u8]),
        ArgValue::Bytes(seq!['p' as u8, 'x' as u8]),
        ArgValue::Number(ttl),
    ]
}

/// The arguments, command name first, of the command that takes the lock on
/// one instance.
pub fn lock_command(resource: &[u8], val: &[u8], ttl: usize) -> (cmd: Vec<CommandArg>)
    ensures
        cmd@.map_values(|a: CommandArg| a@) == lock_command_args(resource@, val@, ttl as nat),
        cmd@.len() == 6,
        cmd@[0]@ == ArgValue::Bytes(seq![83u8, 69u8, 84u8]),
        cmd@[1]@ == ArgValue::Bytes(resource@),
        cmd@[2]@ == ArgValue::Bytes(val@),
        cmd@[3]@ == ArgValue::Bytes(seq![110u8, 120u8]),
        cmd@[4]@ == ArgValue::Bytes(seq![112u8, 120u8]),
        cmd@[5] == CommandArg::Number(ttl),
{
    let mut cmd: Vec<CommandArg> = Vec::new();
    cmd.push(CommandArg::Bytes(vec!['S' as u8, 'E' as u8, 'T' as u8]));
    cmd.push(CommandArg::Bytes(vstd::slice::slice_to_vec(resource)));
    cmd.push(CommandArg::Bytes(vstd::slice::slice_to_vec(val)));
    cmd.push(CommandArg::Bytes(vec!['n' as u8, 'x' as u8]));
    cmd.push(CommandArg::Bytes(vec!['p' as u8, 'x' as u8]));
    cmd.push(CommandArg::Number(ttl));
    assert(cmd@.map_values(|a: CommandArg| a@) =~= lock_command_args(resource@, val@, ttl as nat));
    cmd
}

/// The lock command is `SET` (bytes 83, 69, 84) on the resource with the
/// value, the flag `nx` (110, 120) so that an existing key is left alone,
/// and the flag `px` (112, 120) followed by the requested TTL itself, which
/// Redis reads as milliseconds.
pub proof fn lemma_lock_command_shape(resource: Seq<u8>, val: Seq<u8>, ttl: nat)
    ensures
        lock_command_args(resource, val, ttl).len() == 6,
        lock_command_args(resource, val, ttl)[0] == ArgValue::Bytes(seq![83u8, 69u8, 84u8]),
        lock_command_args(resource, val, ttl)[1] == ArgValue::Bytes(resource),
        lock_command_args(resource, val, ttl)[2] == ArgValue::Bytes(val),
        lock_command_args(resource, val, ttl)[3] == ArgValue::Bytes(seq![110u8, 120u8]),
        lock_command_args(resource, val, ttl)[4] == ArgValue::Bytes(seq![112u8, 120u8]),
        lock_command_args(resource, val, ttl)[5] == ArgValue::Number(ttl),
{
    assert(seq!['S' as u8, 'E' as u8, 'T' as u8] =~= seq![83u8, 69u8, 84u8]);
    assert(seq!['n' as u8, 'x' as u8] =~= seq![110u8, 120u8]);
    assert(seq!['p' as u8, 'x' as u8] =~= seq![112u8, 120u8]);
}

/// The Lua script that releases the lock on one instance: it deletes the
/// key, answering `1`, only when the key holds the lock's value, and
/// answers `0` otherwise.
pub const UNLOCK_SCRIPT: &'static str = r"if redis.call('get',KEYS[1]) == ARGV[1] then
                                return redis.call('del',KEYS[1])
                              else
                                return 0
                              end";

/// A call of a Lua script: its `KEYS` and its `ARGV`.
pub struct ScriptCall {
    pub keys: Vec<Vec<u8>>,
    pub args: Vec<Vec<u8>>,
}

/// The call of `UNLOCK_SCRIPT` that releases the lock on `resource` held
/// with `val`: the resource is its only key, the value its only argument.
pub fn unlock_call(resource: &[u8], val: &[u8]) -> (call: ScriptCall)
    ensures
        call.keys@.len() == 1,
        call.keys@[0]@ == resource@,
        call.args@.len() == 1,
        call.args@[0]@ == val@,
{
    let mut keys: Vec<Vec<u8>> = Vec::new();
    keys.push(vstd::slice::slice_to_vec(resource));
    let mut args: Vec<Vec<u8>> = Vec::new();
    args.push(vstd::slice::slice_to_vec(val));
    ScriptCall { keys, args }
}

/// The keys of one Redis instance, as far as locks go, while no key expires.
pub type Store = Map<Seq<u8>, Seq<u8>>;

/// What an instance does with `SET key val NX PX ttl`: it sets a key that
/// does not exist and answers `OK`, and leaves an existing key alone.
pub open spec fn set_nx(store: Store, key: Seq<u8>, val: Seq<u8>) -> (Store, SetReply) {
    if store.dom().contains(key) {
        (store, SetReply::Other)
    } else {
        (store.insert(key, val), SetReply::Okay)
    }
}

/// What an instance does with `UNLOCK_SCRIPT` for `key` and `val`: it
/// deletes the key and answers 1 when the key holds `val`, else answers 0.
pub open spec fn compare_and_delete(store: Store, key: Seq<u8>, val: Seq<u8>) -> (Store, Option<i32>) {
    if store.dom().contains(key) && store[key] == val {
        (store.remove(key), Some(1i32))
    } else {
        (store, Some(0i32))
    }
}

/// Whether an instance granted the lock by its answer (see `lock_granted`).
pub open spec fn granted(reply: SetReply) -> bool {
    reply == SetReply::Okay
}

/// Whether an instance released the lock by its answer (see
/// `unlock_released`).
pub open spec fn released(reply: Option<i32>) -> bool {
    reply == Some(1i32)
}

/// The answers of the instances, in order, to a request for the lock.
pub open spec fn lock_answers(stores: Seq<Store>, key: Seq<u8>, val: Seq<u8>) -> Seq<bool> {
    stores.map_values(|st: Store| granted(set_nx(st, key, val).1))
}

/// How many instances hold `key` with value `val`.
pub open spec fn holders(stores: Seq<Store>, key: Seq<u8>, val: Seq<u8>) -> nat
    decreases stores.len(),
{
    if stores.len() == 0 {
        0
    } else {
        holders(stores.drop_last(), key, val) + if stores.last().dom().contains(key)
            && stores.last()[key] == val { 1nat } else { 0nat }
    }
}

/// Releasing undoes taking: on an instance where the key is free, the lock
/// request is granted, and the unlock call then releases it and leaves the
/// instance as it was.
pub proof fn lemma_unlock_undoes_lock(store: Store, key: Seq<u8>, val: Seq<u8>)
    requires
        !store.dom().contains(key),
    ensures
        ({
            let (locked, reply) = set_nx(store, key, val);
            let (unlocked, answer) = compare_and_delete(locked, key, val);
            &&& granted(reply)
            &&& released(answer)
            &&& unlocked == store
        }),
{
    let locked = store.insert(key, val);
    assert(locked.remove(key) =~= store);
}

/// Releasing twice releases once: a second unlock call is not a release
/// and changes nothing.
pub proof fn lemma_unlock_idempotent(store: Store, key: Seq<u8>, val: Seq<u8>)
    ensures
        ({
            let (once, _) = compare_and_delete(store, key, val);
            let (twice, answer) = compare_and_delete(once, key, val);
            &&& !released(answer)
            &&& twice == once
        }),
{
}

/// An instance that holds the key with one value does not grant it for
/// another, so the grants for `val` and the holders of `other` together
/// are at most the instances.
pub proof fn lemma_grants_and_holders(stores: Seq<Store>, key: Seq<u8>, val: Seq<u8>, other: Seq<u8>)
    ensures
        count_true(lock_answers(stores, key, val)) + holders(stores, key, other) <= stores.len(),
    decreases stores.len(),
{
    if stores.len() > 0 {
        let rest = stores.drop_last();
        lemma_grants_and_holders(rest, key, val, other);
        assert(lock_answers(stores, key, val).drop_last() =~= lock_answers(rest, key, val));
    }
}

/// Every free instance grants the lock.
pub proof fn lemma_free_instances_grant(stores: Seq<Store>, key: Seq<u8>, val: Seq<u8>)
    requires
        forall|i: int| 0 <= i < stores.len() ==> !(#[trigger] stores[i]).dom().contains(key),
    ensures
        count_true(lock_answers(stores, key, val)) == stores.len(),
    decreases stores.len(),
{
    if stores.len() > 0 {
        let rest = stores.drop_last();
        assert forall|i: int| 0 <= i < rest.len() implies !(#[trigger] rest[i]).dom().contains(key) by {
            assert(rest[i] == stores[i]);
        }
        lemma_free_instances_grant(rest, key, val);
        assert(lock_answers(stores, key, val).drop_last() =~= lock_answers(rest, key, val));
    }
}

/// Mutual exclusion: while a quorum of the instances hold the key with one
/// value, a session asking for it with another value hears fewer grants
/// than the quorum from those instances and does not take the lock,
/// whatever time it took.
pub proof fn lemma_mutual_exclusion(
    s: SessionModel,
    stores: Seq<Store>,
    held: Seq<u8>,
    secs: usize,
    subsec_nanos: usize,
    draw: nat,
)
    requires
        s.wf(),
        s.stage == Stage::Locking,
        s.next == 0,
        s.granted == 0,
        s.servers == stores.len(),
        s.servers <= u32::MAX,
        s.quorum == quorum_for(s.servers),
        holders(stores, s.resource, held) >= s.quorum,
        held != s.val,
    ensures
        ({
            let t = s.run(lock_replies(lock_answers(stores, s.resource, s.val)), draw);
            &&& t.granted < t.quorum
            &&& t.step(LockEvent::Elapsed { secs, subsec_nanos }, draw).stage != Stage::Acquired
        }),
{
    let answers = lock_answers(stores, s.resource, s.val);
    lemma_grants_and_holders(stores, s.resource, s.val, held);
    lemma_lock_sweep(s, answers, draw, answers.len());
    assert(answers.take(answers.len() as int) =~= answers);
    let t = s.run(lock_replies(answers), draw);
    lemma_acquire_decision(t, secs, subsec_nanos, draw);
}

/// After the lock is released everywhere, a session with any value hears a
/// grant from every instance and takes the lock when time is left on it;
/// its validity is then the TTL less the drift and the time spent.
pub proof fn lemma_relock_after_release(
    s: SessionModel,
    stores: Seq<Store>,
    secs: usize,
    subsec_nanos: usize,
    draw: nat,
)
    requires
        s.wf(),
        s.stage == Stage::Locking,
        s.next == 0,
        s.granted == 0,
        s.servers == stores.len(),
        s.servers > 0,
        s.servers <= u32::MAX,
        s.quorum == quorum_for(s.servers),
        forall|i: int| 0 <= i < stores.len() ==> !(#[trigger] stores[i]).dom().contains(s.resource),
        s.validity_after(secs as nat, subsec_nanos as nat) > 0,
    ensures
        ({
            let t = s.run(lock_replies(lock_answers(stores, s.resource, s.val)), draw);
            let u = t.step(LockEvent::Elapsed { secs, subsec_nanos }, draw);
            &&& u.stage == Stage::Acquired
            &&& u.validity_time == s.validity_after(secs as nat, subsec_nanos as nat)
        }),
{
    let answers = lock_answers(stores, s.resource, s.val);
    lemma_free_instances_grant(stores, s.resource, s.val);
    lemma_lock_sweep(s, answers, draw, answers.len());
    assert(answers.take(answers.len() as int) =~= answers);
    let t = s.run(lock_replies(answers), draw);
    lemma_acquire_decision(t, secs, subsec_nanos, draw);
}

} // verus!
