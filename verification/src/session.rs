//! One call of `lock`, as a state machine.
//!
//! A session tries to take the lock on every instance, reads the clock,
//! and either holds the lock (enough instances granted it and time is left
//! on it) or releases every instance, pauses, and tries again, up to the
//! number of tries allowed.  The session decides; the caller performs each
//! action it asks for (a network request, reading the clock, a pause) and
//! hands back what came of it.
use crate::manager::{Lock, ManagerView, RedisLock};
use crate::outside::random_below;
use vstd::prelude::*;

verus! {

/// Where a session stands.
#[derive(Debug, Clone, Copy, PartialEq, Eq, Structural)]
pub enum Stage {
    /// A try is about to begin: the clock must be started.
    Starting,
    /// Asking the instances, one after the other, to take the lock; then
    /// reading the clock.
    Locking,
    /// The try failed: asking the instances, one after the other, to
    /// release the lock.
    Unlocking,
    /// Pausing before the next try.
    Pausing,
    /// The lock is held.
    Acquired,
    /// Every try failed.
    GaveUp,
}

/// What the session asks its caller to do next.
#[derive(Debug, Clone, Copy, PartialEq, Eq, Structural)]
pub enum LockAction {
    /// Start the clock of this try.
    StartClock,
    /// Send `SET resource val NX PX ttl` to the instance at this position.
    LockServer(usize),
    /// Read the time elapsed since the clock of this try started.
    ReadClock,
    /// Run the unlock script on the instance at this position.
    UnlockServer(usize),
    /// Sleep this many milliseconds.
    Pause(u32),
    /// The lock is held, valid for this many milliseconds.
    Acquired(usize),
    /// The lock could not be taken.
    GiveUp,
}

/// What came of the action the session asked for.
#[derive(Debug, Clone, Copy, PartialEq, Eq, Structural)]
pub enum LockEvent {
    /// The clock was started.
    ClockStarted,
    /// The instance asked granted the lock, or not.
    LockReply(bool),
    /// The time elapsed since the clock started: whole seconds and the
    /// nanoseconds beyond them.
    Elapsed { secs: usize, subsec_nanos: usize },
    /// The instance asked released the lock, or not.
    UnlockReply(bool),
    /// The pause is over.
    Paused,
}

/// `a - b`, or zero when `b` is larger.
pub open spec fn sat_sub(a: nat, b: nat) -> nat {
    if a >= b { (a - b) as nat } else { 0 }
}

/// How long a lock stays valid: the TTL less the clock drift and less the
/// time spent taking it (counted in whole milliseconds), never below zero.
pub open spec fn validity(ttl: nat, drift: nat, secs: nat, subsec_nanos: nat) -> nat {
    sat_sub(sat_sub(sat_sub(ttl, drift), secs * 1000), subsec_nanos / 1_000_000)
}

/// The number of tries of a call of `lock`: the count asked for when it is
/// given and positive, else the manager's own.
pub open spec fn retry_attempts(manager_count: u32, retry_count: Option<u32>) -> nat {
    match retry_count {
        Some(c) => if c > 0 { c as nat } else { manager_count as nat },
        None => manager_count as nat,
    }
}

/// The true values of a sequence, counted.
pub open spec fn count_true(bs: Seq<bool>) -> nat
    decreases bs.len(),
{
    if bs.len() == 0 {
        0
    } else {
        count_true(bs.drop_last()) + if bs.last() { 1nat } else { 0nat }
    }
}

/// The events that carry these replies of the instances to a lock request.
pub open spec fn lock_replies(bs: Seq<bool>) -> Seq<LockEvent> {
    bs.map_values(|b: bool| LockEvent::LockReply(b))
}

/// The events that carry these replies of the instances to an unlock
/// request.
pub open spec fn unlock_replies(bs: Seq<bool>) -> Seq<LockEvent> {
    bs.map_values(|b: bool| LockEvent::UnlockReply(b))
}

/// Whether the elapsed seconds of an event, as milliseconds, fit in a
/// `usize`.
pub open spec fn elapsed_fits(e: LockEvent) -> bool {
    e matches LockEvent::Elapsed { secs, .. } ==> secs * 1000 <= usize::MAX
}

/// The state of a session, as numbers.
pub struct SessionModel {
    /// The key being locked.
    pub resource: Seq<u8>,
    /// The value the key is set to.
    pub val: Seq<u8>,
    /// How many instances there are.
    pub servers: nat,
    /// How many must grant the lock.
    pub quorum: nat,
    /// The requested time to live of the lock, in milliseconds.
    pub ttl: nat,
    /// The clock drift allowed for, in milliseconds.
    pub drift: nat,
    /// How many tries are allowed.
    pub attempts: nat,
    /// The pause between tries, when the caller fixed it.
    pub fixed_pause: Option<u32>,
    /// The bound of the random pause between tries otherwise.
    pub max_pause: nat,
    /// The current try, counted from zero; once given up, the number of
    /// tries made.
    pub round: nat,
    /// The position of the next instance to ask.
    pub next: nat,
    /// How many instances granted the lock in this try.
    pub granted: nat,
    pub stage: Stage,
    /// The pause chosen after a failed try.
    pub pause_ms: nat,
    /// How long the lock is valid, once held.
    pub validity_time: nat,
}

impl SessionModel {
    /// The validity of a lock taken in this session after this much time.
    pub open spec fn validity_after(self, secs: nat, subsec_nanos: nat) -> nat {
        validity(self.ttl, self.drift, secs, subsec_nanos)
    }

    /// The pause after a failed try: the fixed one, or the random draw.
    pub open spec fn pause_of(self, draw: nat) -> nat {
        match self.fixed_pause {
            Some(d) => d as nat,
            None => draw,
        }
    }

    /// Start pausing.
    pub open spec fn pause(self, draw: nat) -> SessionModel {
        SessionModel { stage: Stage::Pausing, pause_ms: self.pause_of(draw), ..self }
    }

    /// After a failed try: release every instance, then pause.
    pub open spec fn release(self, draw: nat) -> SessionModel {
        if self.servers > 0 {
            SessionModel { stage: Stage::Unlocking, next: 0, ..self }
        } else {
            self.pause(draw)
        }
    }

    /// Whether the session expects this event now.
    pub open spec fn accepts(self, e: LockEvent) -> bool {
        match self.stage {
            Stage::Starting => e is ClockStarted,
            Stage::Locking => if self.next < self.servers { e is LockReply } else { e is Elapsed },
            Stage::Unlocking => e is UnlockReply,
            Stage::Pausing => e is Paused,
            _ => false,
        }
    }

    /// The session after an event; `draw` is the random pause, used only
    /// when a failed try ends and no pause was fixed.  Events the session
    /// does not expect leave it as it is.
    pub open spec fn step(self, e: LockEvent, draw: nat) -> SessionModel {
        match self.stage {
            Stage::Starting => match e {
                LockEvent::ClockStarted => SessionModel { stage: Stage::Locking, next: 0, granted: 0, ..self },
                _ => self,
            },
            Stage::Locking => if self.next < self.servers {
                match e {
                    LockEvent::LockReply(ok) => SessionModel {
                        next: self.next + 1,
                        granted: if ok { self.granted + 1 } else { self.granted },
                        ..self
                    },
                    _ => self,
                }
            } else {
                match e {
                    LockEvent::Elapsed { secs, subsec_nanos } => {
                        let v: nat = self.validity_after(secs as nat, subsec_nanos as nat);
                        if self.granted >= self.quorum && v > 0 {
                            SessionModel { stage: Stage::Acquired, validity_time: v, ..self }
                        } else {
                            self.release(draw)
                        }
                    },
                    _ => self,
                }
            },
            Stage::Unlocking => match e {
                LockEvent::UnlockReply(_) => if self.next + 1 < self.servers {
                    SessionModel { next: self.next + 1, ..self }
                } else {
                    self.pause(draw)
                },
                _ => self,
            },
            Stage::Pausing => match e {
                LockEvent::Paused => if self.round + 1 < self.attempts {
                    SessionModel { stage: Stage::Starting, round: self.round + 1, ..self }
                } else {
                    SessionModel { stage: Stage::GaveUp, round: self.round + 1, ..self }
                },
                _ => self,
            },
            _ => self,
        }
    }

    /// The session after a sequence of events, the same draw serving every
    /// pause.
    pub open spec fn run(self, events: Seq<LockEvent>, draw: nat) -> SessionModel
        decreases events.len(),
    {
        if events.len() == 0 {
            self
        } else {
            self.run(events.drop_last(), draw).step(events.last(), draw)
        }
    }

    /// Whether this event ends a failed try, so that a pause is chosen.
    pub open spec fn enters_pause(self, e: LockEvent) -> bool {
        self.accepts(e) && self.step(e, 0).stage == Stage::Pausing
    }

    /// Whether this event makes the session draw a random pause.
    pub open spec fn needs_draw(self, e: LockEvent) -> bool {
        self.enters_pause(e) && self.fixed_pause is None
    }

    /// Whether a draw is one that the random pause can take.
    pub open spec fn draw_ok(self, e: LockEvent, draw: nat) -> bool {
        self.needs_draw(e) ==> draw < self.max_pause
    }

    /// The events on which taking the lock does not panic: the elapsed
    /// seconds, as milliseconds, fit in a `usize`, and a random pause is
    /// only drawn from a range that is not empty.
    pub open spec fn admissible(self, e: LockEvent) -> bool {
        &&& elapsed_fits(e)
        &&& (self.needs_draw(e) ==> self.max_pause > 0)
    }

    /// Whether the session is over.
    pub open spec fn finished(self) -> bool {
        self.stage == Stage::Acquired || self.stage == Stage::GaveUp
    }

    /// What the session asks for next.
    pub open spec fn action(self) -> LockAction {
        match self.stage {
            Stage::Starting => LockAction::StartClock,
            Stage::Locking => if self.next < self.servers {
                LockAction::LockServer(self.next as usize)
            } else {
                LockAction::ReadClock
            },
            Stage::Unlocking => LockAction::UnlockServer(self.next as usize),
            Stage::Pausing => LockAction::Pause(self.pause_ms as u32),
            Stage::Acquired => LockAction::Acquired(self.validity_time as usize),
            Stage::GaveUp => LockAction::GiveUp,
        }
    }

    /// The events of one try that ends in failure.
    pub open spec fn events_per_round(self) -> nat {
        2 * self.servers + 3
    }

    /// An upper bound on the number of events before the session is over.
    pub open spec fn remaining(self) -> nat {
        let later: nat = (self.attempts - self.round - 1) as nat * self.events_per_round();
        match self.stage {
            Stage::Starting => later + self.events_per_round(),
            Stage::Locking => later + (self.servers - self.next) as nat + self.servers + 2,
            Stage::Unlocking => later + (self.servers - self.next) as nat + 1,
            Stage::Pausing => later + 1,
            _ => 0,
        }
    }

    /// The invariant of a session.
    pub open spec fn wf(self) -> bool {
        &&& self.servers <= usize::MAX
        &&& self.quorum <= u32::MAX
        &&& self.ttl <= usize::MAX
        &&& self.drift <= usize::MAX
        &&& self.attempts <= u32::MAX
        &&& self.max_pause <= u32::MAX
        &&& self.pause_ms <= u32::MAX
        &&& self.validity_time <= usize::MAX
        &&& (self.stage == Stage::GaveUp ==> self.round == self.attempts)
        &&& (self.stage != Stage::GaveUp ==> self.round < self.attempts)
        &&& self.next <= self.servers
        &&& self.granted <= self.servers
        &&& (self.stage == Stage::Locking ==> self.granted <= self.next)
        &&& (self.stage == Stage::Unlocking ==> self.next < self.servers)
        &&& (self.stage == Stage::Pausing ==> match self.fixed_pause {
            Some(d) => self.pause_ms == d,
            None => self.pause_ms < self.max_pause,
        })
        &&& (self.stage == Stage::Acquired ==> {
            &&& self.granted >= self.quorum
            &&& 0 < self.validity_time <= sat_sub(self.ttl, self.drift)
        })
    }
}

/// The state of a session at its start.
pub open spec fn initial_session(
    manager: ManagerView,
    resource: Seq<u8>,
    val: Seq<u8>,
    ttl: nat,
    retry_count: Option<u32>,
    retry_delay: Option<u32>,
    clock_drift: nat,
) -> SessionModel {
    let attempts: nat = retry_attempts(manager.retry_count, retry_count);
    SessionModel {
        resource,
        val,
        servers: manager.servers.len(),
        quorum: manager.quorum as nat,
        ttl,
        drift: clock_drift + 2,
        attempts,
        fixed_pause: retry_delay,
        max_pause: manager.retry_delay as nat,
        round: 0,
        next: 0,
        granted: 0,
        stage: if attempts > 0 { Stage::Starting } else { Stage::GaveUp },
        pause_ms: 0,
        validity_time: 0,
    }
}


/// The settings of two session states agree: what was asked for (resource,
/// value, TTL, tries, pauses) and the instances, quorum and drift.
pub open spec fn same_settings(a: SessionModel, b: SessionModel) -> bool {
    &&& a.resource == b.resource
    &&& a.val == b.val
    &&& a.servers == b.servers
    &&& a.quorum == b.quorum
    &&& a.ttl == b.ttl
    &&& a.drift == b.drift
    &&& a.attempts == b.attempts
    &&& a.fixed_pause == b.fixed_pause
    &&& a.max_pause == b.max_pause
}

/// No event changes what a session was asked for: every try works with the
/// same resource, value, TTL and drift, the same instances and quorum.
pub proof fn lemma_step_keeps_settings(s: SessionModel, e: LockEvent, draw: nat)
    ensures
        same_settings(s.step(e, draw), s),
{
}

/// A whole run of events keeps the settings.
pub proof fn lemma_run_keeps_settings(s: SessionModel, events: Seq<LockEvent>, draw: nat)
    ensures
        same_settings(s.run(events, draw), s),
    decreases events.len(),
{
    if events.len() > 0 {
        lemma_run_keeps_settings(s, events.drop_last(), draw);
        lemma_step_keeps_settings(s.run(events.drop_last(), draw), events.last(), draw);
    }
}

/// The validity of a lock is the TTL less the drift less the whole time
/// spent, counted in milliseconds as `secs * 1000 + subsec_nanos / 10^6`,
/// and zero when that leaves nothing.
pub proof fn lemma_validity_counts_whole_elapsed(ttl: nat, drift: nat, secs: nat, subsec_nanos: nat)
    ensures
        validity(ttl, drift, secs, subsec_nanos) == sat_sub(ttl, drift + secs * 1000 + subsec_nanos / 1_000_000),
        ttl >= drift + secs * 1000 + subsec_nanos / 1_000_000 ==> validity(ttl, drift, secs, subsec_nanos)
            == ttl - drift - (secs * 1000 + subsec_nanos / 1_000_000),
        validity(ttl, drift, secs, subsec_nanos) <= ttl,
{
}

/// More time spent never leaves a lock more validity.
pub proof fn lemma_validity_shrinks_with_time(
    ttl: nat,
    drift: nat,
    secs1: nat,
    nanos1: nat,
    secs2: nat,
    nanos2: nat,
)
    requires
        secs1 * 1000 + nanos1 / 1_000_000 <= secs2 * 1000 + nanos2 / 1_000_000,
    ensures
        validity(ttl, drift, secs2, nanos2) <= validity(ttl, drift, secs1, nanos1),
{
    lemma_validity_counts_whole_elapsed(ttl, drift, secs1, nanos1);
    lemma_validity_counts_whole_elapsed(ttl, drift, secs2, nanos2);
}

/// On any try of a session, not only the first: once every instance was
/// asked and at least the quorum granted, the session takes the lock when
/// the TTL it was started with exceeds the drift plus the time spent, and
/// the lock is valid for exactly what is left.
pub proof fn lemma_takes_lock_on_any_try(
    s0: SessionModel,
    events: Seq<LockEvent>,
    secs: usize,
    subsec_nanos: usize,
    draw: nat,
)
    requires
        s0.run(events, draw).stage == Stage::Locking,
        s0.run(events, draw).next == s0.run(events, draw).servers,
        s0.run(events, draw).granted >= s0.quorum,
        s0.ttl > s0.drift + secs * 1000 + subsec_nanos / 1_000_000,
    ensures
        ({
            let t = s0.run(events, draw).step(LockEvent::Elapsed { secs, subsec_nanos }, draw);
            &&& t.stage == Stage::Acquired
            &&& t.validity_time == s0.ttl - s0.drift - (secs * 1000 + subsec_nanos / 1_000_000)
        }),
{
    lemma_run_keeps_settings(s0, events, draw);
    lemma_validity_counts_whole_elapsed(s0.ttl, s0.drift, secs as nat, subsec_nanos as nat);
}

/// Every event keeps a session well formed, when a random pause is drawn
/// from its range.
pub proof fn lemma_step_keeps_wf(s: SessionModel, e: LockEvent, draw: nat)
    requires
        s.wf(),
        s.draw_ok(e, draw),
    ensures
        s.step(e, draw).wf(),
{
}

/// Events that the session does not expect leave it as it is.
pub proof fn lemma_unexpected_event_ignored(s: SessionModel, e: LockEvent, draw: nat)
    requires
        !s.accepts(e),
    ensures
        s.step(e, draw) == s,
{
}

/// Every expected event brings the session closer to its end: the bound on
/// the events still to come drops, and it is zero exactly when the session
/// is over.  So a call of `lock` ends after at most `remaining` events.
pub proof fn lemma_step_progress(s: SessionModel, e: LockEvent, draw: nat)
    requires
        s.wf(),
        s.accepts(e),
    ensures
        s.step(e, draw).remaining() < s.remaining(),
        s.finished() <==> s.remaining() == 0,
{
    let r: nat = s.events_per_round();
    let k: nat = (s.attempts - s.round - 1) as nat;
    if s.stage == Stage::Pausing && s.round + 1 < s.attempts {
        let t = s.step(e, draw);
        assert(t.attempts - t.round - 1 == k - 1);
        assert(((k - 1) as nat) * r + r == k * r) by (nonlinear_arith)
            requires k >= 1;
    }
}

/// A session starts with at most `attempts * (2 * servers + 3)` events
/// ahead of it.
pub proof fn lemma_initial_remaining(
    manager: ManagerView,
    resource: Seq<u8>,
    val: Seq<u8>,
    ttl: nat,
    retry_count: Option<u32>,
    retry_delay: Option<u32>,
    clock_drift: nat,
)
    ensures
        ({
            let s = initial_session(manager, resource, val, ttl, retry_count, retry_delay, clock_drift);
            s.remaining() == s.attempts * s.events_per_round()
        }),
{
    let s = initial_session(manager, resource, val, ttl, retry_count, retry_delay, clock_drift);
    let r: nat = s.events_per_round();
    if s.attempts > 0 {
        let k: nat = (s.attempts - s.round - 1) as nat;
        assert(k * r + r == s.attempts * r) by (nonlinear_arith)
            requires k + 1 == s.attempts;
    } else {
        assert(s.attempts * r == 0) by (nonlinear_arith)
            requires s.attempts == 0;
    }
}

/// The lock is taken exactly when, after asking every instance, at least
/// the quorum granted it and time is left on it; its validity is then the
/// TTL less the drift and the time spent, and at most the TTL less the drift.
pub proof fn lemma_acquire_decision(s: SessionModel, secs: usize, subsec_nanos: usize, draw: nat)
    requires
        s.wf(),
        s.stage == Stage::Locking,
        s.next == s.servers,
    ensures
        ({
            let t = s.step(LockEvent::Elapsed { secs, subsec_nanos }, draw);
            let v = s.validity_after(secs as nat, subsec_nanos as nat);
            &&& t.stage == Stage::Acquired <==> (s.granted >= s.quorum && v > 0)
            &&& t.stage == Stage::Acquired ==> t.validity_time == v && v <= sat_sub(s.ttl, s.drift)
            &&& t.stage != Stage::Acquired ==> (t.stage == Stage::Unlocking && t.next == 0) || (
                t.stage == Stage::Pausing && s.servers == 0)
        }),
{
}

/// A session only ever takes the lock after a quorum of instances granted
/// it.
pub proof fn lemma_acquired_only_with_quorum(s: SessionModel, e: LockEvent, draw: nat)
    requires
        s.wf(),
        s.stage != Stage::Acquired,
        s.step(e, draw).stage == Stage::Acquired,
    ensures
        s.stage == Stage::Locking,
        s.next == s.servers,
        e is Elapsed,
        s.granted >= s.quorum,
        s.step(e, draw).validity_time > 0,
{
}

/// A session gives up only at the end of its last try.
pub proof fn lemma_gives_up_after_last_try(s: SessionModel, e: LockEvent, draw: nat)
    requires
        s.wf(),
        s.stage != Stage::GaveUp,
        s.step(e, draw).stage == Stage::GaveUp,
    ensures
        s.stage == Stage::Pausing,
        e == LockEvent::Paused,
        s.round + 1 == s.attempts,
        s.step(e, draw).round == s.attempts,
{
}

/// One event more at the end of a run is one step more.
proof fn lemma_run_push(s: SessionModel, events: Seq<LockEvent>, e: LockEvent, draw: nat)
    ensures
        s.run(events.push(e), draw) == s.run(events, draw).step(e, draw),
{
    assert(events.push(e).drop_last() =~= events);
}

/// While a try asks the instances to take the lock, every instance is
/// asked in turn, from the next one to the last, and the count of grants
/// goes up by the number of instances that granted; then the clock is read.
pub proof fn lemma_lock_sweep(s: SessionModel, replies: Seq<bool>, draw: nat, k: nat)
    requires
        s.wf(),
        s.stage == Stage::Locking,
        replies.len() == s.servers - s.next,
        k <= replies.len(),
    ensures
        ({
            let t = s.run(lock_replies(replies.take(k as int)), draw);
            &&& t.wf()
            &&& t.stage == Stage::Locking
            &&& t.servers == s.servers && t.round == s.round && t.quorum == s.quorum
            &&& t.ttl == s.ttl && t.drift == s.drift && t.resource == s.resource && t.val == s.val
            &&& t.next == s.next + k
            &&& t.granted == s.granted + count_true(replies.take(k as int))
            &&& t.action() == if k < replies.len() {
                LockAction::LockServer((s.next + k) as usize)
            } else {
                LockAction::ReadClock
            }
        }),
    decreases k,
{
    if k > 0 {
        let j: nat = (k - 1) as nat;
        lemma_lock_sweep(s, replies, draw, j);
        let prefix = replies.take(j as int);
        let events = lock_replies(prefix);
        let e = LockEvent::LockReply(replies[j as int]);
        assert(lock_replies(replies.take(k as int)) =~= events.push(e));
        lemma_run_push(s, events, e, draw);
        lemma_step_keeps_wf(s.run(events, draw), e, draw);
        assert(replies.take(k as int).drop_last() =~= prefix);
        assert(replies.take(k as int).last() == replies[j as int]);
    } else {
        assert(lock_replies(replies.take(0)) =~= Seq::<LockEvent>::empty());
        assert(replies.take(0) =~= Seq::<bool>::empty());
        assert(s.run(Seq::<LockEvent>::empty(), draw) == s);
    }
}

/// After a failed try, every instance is asked to release the lock in turn,
/// from the next one to the last, whatever the instances reply; then the
/// session pauses.
pub proof fn lemma_unlock_sweep(s: SessionModel, replies: Seq<bool>, draw: nat, k: nat)
    requires
        s.wf(),
        s.stage == Stage::Unlocking,
        replies.len() == s.servers - s.next,
        1 <= k <= replies.len(),
    ensures
        ({
            let t = s.run(unlock_replies(replies.take(k as int)), draw);
            if k < replies.len() {
                &&& t.stage == Stage::Unlocking
                &&& t.servers == s.servers && t.round == s.round && t.fixed_pause == s.fixed_pause
                &&& t.next == s.next + k
                &&& t.action() == LockAction::UnlockServer((s.next + k) as usize)
            } else {
                &&& t.stage == Stage::Pausing
                &&& t.round == s.round
                &&& t.pause_ms == s.pause_of(draw)
            }
        }),
    decreases k,
{
    let j: nat = (k - 1) as nat;
    let events = unlock_replies(replies.take(j as int));
    assert(unlock_replies(replies.take(k as int)) =~= events.push(LockEvent::UnlockReply(replies[j as int])));
    lemma_run_push(s, events, LockEvent::UnlockReply(replies[j as int]), draw);
    if j > 0 {
        lemma_unlock_sweep(s, replies, draw, j);
    } else {
        assert(events =~= Seq::<LockEvent>::empty());
        assert(s.run(events, draw) == s);
    }
    let u = s.run(events, draw);
    assert(u.stage == Stage::Unlocking && u.next == s.next + j);
}


/// The time a lock stays valid after `elapsed_secs` seconds and
/// `elapsed_subsec_nanos` nanoseconds spent taking it: the TTL less the
/// drift, less the elapsed whole milliseconds, never below zero.
pub fn validity_time(ttl: usize, drift: usize, elapsed_secs: usize, elapsed_subsec_nanos: usize) -> (v: usize)
    requires
        elapsed_secs * 1000 <= usize::MAX,
    ensures
        v == validity(ttl as nat, drift as nat, elapsed_secs as nat, elapsed_subsec_nanos as nat),
        v == sat_sub(ttl as nat, (drift + elapsed_secs * 1000 + elapsed_subsec_nanos / 1_000_000) as nat),
{
    proof {
        lemma_validity_counts_whole_elapsed(ttl as nat, drift as nat, elapsed_secs as nat, elapsed_subsec_nanos as nat);
    }
    ttl.saturating_sub(drift).saturating_sub(elapsed_secs * 1000).saturating_sub(
        elapsed_subsec_nanos / 1_000_000,
    )
}

/// One call of `lock` in progress.
pub struct LockSession {
    resource: Vec<u8>,
    val: Vec<u8>,
    servers: usize,
    quorum: u32,
    ttl: usize,
    drift: usize,
    attempts: u32,
    fixed_pause: Option<u32>,
    max_pause: u32,
    round: u32,
    next: usize,
    granted: usize,
    stage: Stage,
    pause_ms: u32,
    validity_time: usize,
}

impl View for LockSession {
    type V = SessionModel;

    closed spec fn view(&self) -> SessionModel {
        SessionModel {
            resource: self.resource@,
            val: self.val@,
            servers: self.servers as nat,
            quorum: self.quorum as nat,
            ttl: self.ttl as nat,
            drift: self.drift as nat,
            attempts: self.attempts as nat,
            fixed_pause: self.fixed_pause,
            max_pause: self.max_pause as nat,
            round: self.round as nat,
            next: self.next as nat,
            granted: self.granted as nat,
            stage: self.stage,
            pause_ms: self.pause_ms as nat,
            validity_time: self.validity_time as nat,
        }
    }
}

impl RedisLock {
    /// Begin a call of `lock`: take the lock on `resource` with value `val`
    /// for `ttl` milliseconds, in `retry_count` tries (the manager's own
    /// count when `None` or zero), pausing `retry_delay` milliseconds between
    /// tries (a random pause below the manager's delay when `None`).
    /// `clock_drift` is the drift allowed for the TTL, in milliseconds; two
    /// more are added to it.
    pub fn lock_session(
        &self,
        resource: &[u8],
        val: Vec<u8>,
        ttl: usize,
        retry_count: Option<u32>,
        retry_delay: Option<u32>,
        clock_drift: usize,
    ) -> (session: LockSession)
        requires
            clock_drift + 2 <= usize::MAX,
        ensures
            session@ == initial_session(self@, resource@, val@, ttl as nat, retry_count, retry_delay, clock_drift as nat),
            session@.wf(),
    {
        let attempts: u32 = match retry_count {
            Some(count) => if count > 0 { count } else { self.retry_count() },
            None => self.retry_count(),
        };
        let stage = if attempts > 0 { Stage::Starting } else { Stage::GaveUp };
        LockSession {
            resource: vstd::slice::slice_to_vec(resource),
            val,
            servers: self.server_count(),
            quorum: self.quorum(),
            ttl,
            drift: clock_drift + 2,
            attempts,
            fixed_pause: retry_delay,
            max_pause: self.retry_delay(),
            round: 0,
            next: 0,
            granted: 0,
            stage,
            pause_ms: 0,
            validity_time: 0,
        }
    }
}

impl LockSession {
    /// The key being locked.
    pub fn resource(&self) -> (r: &[u8])
        ensures
            r@ == self@.resource,
    {
        self.resource.as_slice()
    }

    /// The value the key is set to.
    pub fn val(&self) -> (v: &[u8])
        ensures
            v@ == self@.val,
    {
        self.val.as_slice()
    }

    /// What the session asks for next.
    pub fn action(&self) -> (a: LockAction)
        ensures
            a == self@.action(),
    {
        match self.stage {
            Stage::Starting => LockAction::StartClock,
            Stage::Locking => if self.next < self.servers {
                LockAction::LockServer(self.next)
            } else {
                LockAction::ReadClock
            },
            Stage::Unlocking => LockAction::UnlockServer(self.next),
            Stage::Pausing => LockAction::Pause(self.pause_ms),
            Stage::Acquired => LockAction::Acquired(self.validity_time),
            Stage::GaveUp => LockAction::GiveUp,
        }
    }

    /// Whether the session expects this event now.
    pub fn accepts(&self, event: &LockEvent) -> (b: bool)
        ensures
            b == self@.accepts(*event),
    {
        match self.stage {
            Stage::Starting => matches!(*event, LockEvent::ClockStarted),
            Stage::Locking => if self.next < self.servers {
                matches!(*event, LockEvent::LockReply(_))
            } else {
                matches!(*event, LockEvent::Elapsed { .. })
            },
            Stage::Unlocking => matches!(*event, LockEvent::UnlockReply(_)),
            Stage::Pausing => matches!(*event, LockEvent::Paused),
            _ => false,
        }
    }

    /// Whether this event makes the session draw a random pause.
    fn needs_draw(&self, event: &LockEvent) -> (b: bool)
        requires
            self@.wf(),
            elapsed_fits(*event),
        ensures
            b == self@.needs_draw(*event),
    {
        if self.fixed_pause.is_some() || !self.accepts(event) {
            return false;
        }
        match self.stage {
            Stage::Locking => match *event {
                LockEvent::Elapsed { secs, subsec_nanos } => {
                    let v: usize = validity_time(self.ttl, self.drift, secs, subsec_nanos);
                    !(self.granted >= self.quorum as usize && v > 0) && self.servers == 0
                },
                _ => false,
            },
            Stage::Unlocking => self.next + 1 >= self.servers,
            _ => false,
        }
    }

    /// Whether handling this event is safe (see `SessionModel::admissible`).
    pub fn admits(&self, event: &LockEvent) -> (b: bool)
        requires
            self@.wf(),
        ensures
            b == self@.admissible(*event),
    {
        if let LockEvent::Elapsed { secs, .. } = *event {
            if secs > usize::MAX / 1000 {
                return false;
            }
        }
        !self.needs_draw(event) || self.max_pause > 0
    }

    /// Start pausing for `pause_ms`.
    fn start_pause(&mut self, draw: u32)
        ensures
            final(self)@ == old(self)@.pause(draw as nat),
    {
        self.stage = Stage::Pausing;
        self.pause_ms = match self.fixed_pause {
            Some(d) => d,
            None => draw,
        };
    }

    /// Hand the session an event, with the random pause already drawn.
    pub fn advance(&mut self, event: LockEvent, draw: u32)
        requires
            old(self)@.wf(),
            old(self)@.admissible(event),
            old(self)@.draw_ok(event, draw as nat),
        ensures
            final(self)@ == old(self)@.step(event, draw as nat),
            final(self)@.wf(),
    {
        proof {
            lemma_step_keeps_wf(self@, event, draw as nat);
        }
        match self.stage {
            Stage::Starting => {
                if let LockEvent::ClockStarted = event {
                    self.stage = Stage::Locking;
                    self.next = 0;
                    self.granted = 0;
                }
            },
            Stage::Locking => {
                if self.next < self.servers {
                    if let LockEvent::LockReply(ok) = event {
                        if ok {
                            self.granted = self.granted + 1;
                        }
                        self.next = self.next + 1;
                    }
                } else if let LockEvent::Elapsed { secs, subsec_nanos } = event {
                    let v: usize = validity_time(self.ttl, self.drift, secs, subsec_nanos);
                    if self.granted >= self.quorum as usize && v > 0 {
                        self.stage = Stage::Acquired;
                        self.validity_time = v;
                    } else if self.servers > 0 {
                        self.stage = Stage::Unlocking;
                        self.next = 0;
                    } else {
                        self.start_pause(draw);
                    }
                }
            },
            Stage::Unlocking => {
                if let LockEvent::UnlockReply(_) = event {
                    if self.next + 1 < self.servers {
                        self.next = self.next + 1;
                    } else {
                        self.start_pause(draw);
                    }
                }
            },
            Stage::Pausing => {
                if let LockEvent::Paused = event {
                    if self.round + 1 < self.attempts {
                        self.stage = Stage::Starting;
                    } else {
                        self.stage = Stage::GaveUp;
                    }
                    self.round = self.round + 1;
                }
            },
            _ => {},
        }
    }

    /// Hand the session an event.  When the event ends a failed try and no
    /// pause was fixed, the pause is drawn at random below the manager's
    /// retry delay.
    pub fn handle(&mut self, event: LockEvent)
        requires
            old(self)@.wf(),
            old(self)@.admissible(event),
        ensures
            final(self)@.wf(),
            exists|draw: nat| old(self)@.draw_ok(event, draw) && final(self)@ == old(self)@.step(event, draw),
    {
        let draw: u32 = if self.needs_draw(&event) {
            random_below(self.max_pause as usize) as u32
        } else {
            0
        };
        self.advance(event, draw);
    }

    /// The lock that the session took, if it took one.
    pub fn into_lock<'a>(self, manager: &'a RedisLock) -> (lock: Option<Lock<'a>>)
        ensures
            lock is Some <==> self@.stage == Stage::Acquired,
            lock matches Some(l) ==> {
                &&& l.resource@ == self@.resource
                &&& l.val@ == self@.val
                &&& l.validity_time == self@.validity_time
                &&& l.lock_manager == manager
            },
    {
        match self.stage {
            Stage::Acquired => Some(
                Lock {
                    resource: self.resource,
                    val: self.val,
                    validity_time: self.validity_time,
                    lock_manager: manager,
                },
            ),
            _ => None,
        }
    }
}

} // verus!
