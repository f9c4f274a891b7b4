use std::collections::HashMap;

use redislock::{
    chars_from_draws, lock_command, unlock_call, CommandArg, Lock, lock_granted, lock_id_from_read, random_char, unlock_released, validity_time,
    InvalidUri, LockAction, LockEvent, LockSession, RedisLock, SetReply, CHARSET,
    DEFAULT_RANDOM_LEN, DEFAULT_RETRY_COUNT, DEFAULT_RETRY_DELAY, LOCK_ID_LEN,
};

fn addresses(n: usize) -> Vec<String> {
    (0..n).map(|i| format!("redis://localhost:{}", 6380 + i)).collect()
}

#[test]
fn test_random_char() {
    let words1 = random_char(Some(20));
    println!("{:?}", words1);
    let words2 = random_char(Some(20));
    println!("{:?}", words2);
    assert_eq!(20, words1.len());
    assert_eq!(20, words2.len());
    assert_ne!(words1, words2);
    println!("{}", String::from_utf8(words1).unwrap());
    println!("{}", String::from_utf8(words2).unwrap());
}

#[test]
fn test_redlock_valid_instance() {
    let rl = RedisLock::new(addresses(3));
    assert_eq!(3, rl.servers.len());
    assert_eq!(2, rl.quorum());
}

#[test]
fn random_char_default_length() {
    assert_eq!(DEFAULT_RANDOM_LEN, random_char(None).len());
    assert_eq!(DEFAULT_RANDOM_LEN, random_char(Some(0)).len());
    assert_eq!(1, random_char(Some(1)).len());
    assert_eq!(57, random_char(Some(57)).len());
}

#[test]
fn random_char_stays_in_alphabet() {
    let words = random_char(Some(500));
    assert!(words.iter().all(|b| CHARSET.contains(b)));
}

#[test]
fn chars_from_draws_spells_alphabet_positions() {
    assert_eq!(b"Aa0)~".to_vec(), chars_from_draws(&vec![0, 26, 52, 62, 72]));
    assert_eq!(Vec::<u8>::new(), chars_from_draws(&Vec::new()));
    assert_eq!(73, CHARSET.len());
}

#[test]
fn quorum_is_a_majority() {
    let expected = [(0, 1), (1, 1), (2, 2), (3, 2), (4, 3), (5, 3), (6, 4)];
    for (n, q) in expected {
        let rl = RedisLock::new(addresses(n));
        assert_eq!(q, rl.quorum());
        assert_eq!(n, rl.server_count());
        assert!(2 * q as usize > n);
    }
}

#[test]
fn new_uses_default_retry_settings() {
    let mut rl = RedisLock::new(addresses(3));
    assert_eq!(DEFAULT_RETRY_COUNT, rl.retry_count());
    assert_eq!(DEFAULT_RETRY_DELAY, rl.retry_delay());
    assert_eq!(3, rl.retry_count());
    assert_eq!(200, rl.retry_delay());
    rl.set_retry(7, 50);
    assert_eq!(7, rl.retry_count());
    assert_eq!(50, rl.retry_delay());
    assert_eq!(2, rl.quorum());
    assert_eq!(3, rl.servers.len());
}

#[test]
fn try_new_reports_first_refused_url() {
    let uris = vec![
        "redis://localhost:6380".to_string(),
        "http://localhost:6381".to_string(),
        "not a url".to_string(),
    ];
    match RedisLock::try_new(uris) {
        Err(e) => assert_eq!(InvalidUri { index: 1 }, e),
        Ok(_) => panic!("an http URL was accepted"),
    }
    match RedisLock::try_new(vec!["no scheme".to_string()]) {
        Err(e) => assert_eq!(0, e.index),
        Ok(_) => panic!("a bare word was accepted"),
    }
    let rl = RedisLock::try_new(addresses(4)).expect("valid URLs");
    assert_eq!(4, rl.servers.len());
    assert_eq!(3, rl.quorum());
}

#[test]
fn instance_replies() {
    assert!(lock_granted(SetReply::Okay));
    assert!(!lock_granted(SetReply::Other));
    assert!(!lock_granted(SetReply::Failed));
    assert!(unlock_released(Some(1)));
    assert!(!unlock_released(Some(0)));
    assert!(!unlock_released(Some(2)));
    assert!(!unlock_released(None));
}

#[test]
fn lock_id_needs_twenty_bytes() {
    assert_eq!(20, LOCK_ID_LEN);
    let bytes: Vec<u8> = (0..20).collect();
    assert_eq!(Some(bytes.clone()), lock_id_from_read(bytes));
    assert_eq!(None, lock_id_from_read(vec![1, 2, 3]));
    assert_eq!(None, lock_id_from_read(Vec::new()));
}

#[test]
fn validity_time_subtracts_drift_and_elapsed() {
    assert_eq!(1000 - 12 - 5, validity_time(1000, 12, 0, 5_400_000));
    assert_eq!(0, validity_time(1000, 12, 2, 5_000_000));
    assert_eq!(0, validity_time(10, 12, 0, 0));
    assert_eq!(988, validity_time(1000, 12, 0, 999_999));
    assert_eq!(1, validity_time(1013, 12, 1, 0));
}

fn drive(session: &mut LockSession, event: LockEvent) {
    assert!(session.admits(&event));
    session.handle(event);
}

fn lock_round(session: &mut LockSession, replies: &[bool], elapsed_ms: usize) {
    assert_eq!(LockAction::StartClock, session.action());
    drive(session, LockEvent::ClockStarted);
    for (i, ok) in replies.iter().enumerate() {
        assert_eq!(LockAction::LockServer(i), session.action());
        drive(session, LockEvent::LockReply(*ok));
    }
    assert_eq!(LockAction::ReadClock, session.action());
    drive(
        session,
        LockEvent::Elapsed { secs: elapsed_ms / 1000, subsec_nanos: (elapsed_ms % 1000) * 1_000_000 },
    );
}

#[test]
fn session_acquires_with_quorum() {
    let rl = RedisLock::new(addresses(3));
    let mut s = rl.lock_session(b"mutex", b"value".to_vec(), 1000, None, None, 10);
    lock_round(&mut s, &[true, false, true], 30);
    // 1000 - (10 + 2) - 30
    assert_eq!(LockAction::Acquired(958), s.action());
    let lock = s.into_lock(&rl).expect("a lock");
    assert_eq!(b"mutex".to_vec(), lock.resource);
    assert_eq!(b"value".to_vec(), lock.val);
    assert_eq!(958, lock.validity_time);
}

#[test]
fn session_releases_every_server_after_a_failed_try() {
    let rl = RedisLock::new(addresses(3));
    let mut s = rl.lock_session(b"mutex", b"value".to_vec(), 1000, Some(2), Some(5), 10);
    lock_round(&mut s, &[true, false, false], 30);
    for i in 0..3 {
        assert_eq!(LockAction::UnlockServer(i), s.action());
        drive(&mut s, LockEvent::UnlockReply(i == 0));
    }
    assert_eq!(LockAction::Pause(5), s.action());
    drive(&mut s, LockEvent::Paused);
    // second and last try
    lock_round(&mut s, &[false, false, false], 0);
    for i in 0..3 {
        assert_eq!(LockAction::UnlockServer(i), s.action());
        drive(&mut s, LockEvent::UnlockReply(false));
    }
    assert_eq!(LockAction::Pause(5), s.action());
    drive(&mut s, LockEvent::Paused);
    assert_eq!(LockAction::GiveUp, s.action());
    assert!(s.into_lock(&rl).is_none());
}

#[test]
fn session_fails_when_no_time_is_left() {
    let rl = RedisLock::new(addresses(1));
    let mut s = rl.lock_session(b"k", b"v".to_vec(), 100, Some(1), Some(0), 1);
    lock_round(&mut s, &[true], 97);
    // 100 - 3 - 97 == 0: the try fails though the only instance granted
    assert_eq!(LockAction::UnlockServer(0), s.action());
}

#[test]
fn session_random_pause_stays_below_retry_delay() {
    for _ in 0..20 {
        let rl = RedisLock::new(addresses(2));
        let mut s = rl.lock_session(b"k", b"v".to_vec(), 1000, Some(1), None, 10);
        lock_round(&mut s, &[false, true], 0);
        drive(&mut s, LockEvent::UnlockReply(true));
        drive(&mut s, LockEvent::UnlockReply(true));
        match s.action() {
            LockAction::Pause(ms) => assert!(ms < DEFAULT_RETRY_DELAY),
            other => panic!("expected a pause, got {:?}", other),
        }
    }
}

#[test]
fn session_with_random_pause_and_zero_delay_is_refused() {
    let mut rl = RedisLock::new(Vec::new());
    rl.set_retry(1, 0);
    let mut s = rl.lock_session(b"k", b"v".to_vec(), 1000, None, None, 10);
    drive(&mut s, LockEvent::ClockStarted);
    assert_eq!(LockAction::ReadClock, s.action());
    let elapsed = LockEvent::Elapsed { secs: 0, subsec_nanos: 0 };
    assert!(!s.admits(&elapsed));
    assert!(!s.admits(&LockEvent::Elapsed { secs: usize::MAX, subsec_nanos: 0 }));
}

#[test]
fn session_without_servers_never_acquires() {
    let rl = RedisLock::new(Vec::new());
    let mut s = rl.lock_session(b"k", b"v".to_vec(), 1000, Some(1), Some(3), 10);
    lock_round(&mut s, &[], 0);
    assert_eq!(LockAction::Pause(3), s.action());
    drive(&mut s, LockEvent::Paused);
    assert_eq!(LockAction::GiveUp, s.action());
}

#[test]
fn session_try_count() {
    let mut rl = RedisLock::new(addresses(1));
    rl.set_retry(0, 10);
    let s = rl.lock_session(b"k", b"v".to_vec(), 1000, None, None, 10);
    assert_eq!(LockAction::GiveUp, s.action());
    let s = rl.lock_session(b"k", b"v".to_vec(), 1000, Some(0), None, 10);
    assert_eq!(LockAction::GiveUp, s.action());
    let mut s = rl.lock_session(b"k", b"v".to_vec(), 1000, Some(1), Some(1), 10);
    lock_round(&mut s, &[false], 0);
    drive(&mut s, LockEvent::UnlockReply(false));
    drive(&mut s, LockEvent::Paused);
    assert_eq!(LockAction::GiveUp, s.action());
}

#[test]
fn session_ignores_unexpected_events() {
    let rl = RedisLock::new(addresses(2));
    let mut s = rl.lock_session(b"k", b"v".to_vec(), 1000, None, None, 10);
    assert!(!s.accepts(&LockEvent::Paused));
    drive(&mut s, LockEvent::Paused);
    drive(&mut s, LockEvent::LockReply(true));
    assert_eq!(LockAction::StartClock, s.action());
    drive(&mut s, LockEvent::ClockStarted);
    drive(&mut s, LockEvent::UnlockReply(true));
    assert_eq!(LockAction::LockServer(0), s.action());
    assert_eq!(b"k", s.resource());
    assert_eq!(b"v", s.val());
}

#[test]
fn session_ends_within_its_event_bound() {
    let rl = RedisLock::new(addresses(4));
    let attempts: usize = 3;
    let mut s = rl.lock_session(b"k", b"v".to_vec(), 1000, Some(attempts as u32), Some(0), 10);
    let mut events = 0;
    loop {
        let event = match s.action() {
            LockAction::StartClock => LockEvent::ClockStarted,
            LockAction::LockServer(i) => LockEvent::LockReply(i == 0),
            LockAction::ReadClock => LockEvent::Elapsed { secs: 0, subsec_nanos: 0 },
            LockAction::UnlockServer(_) => LockEvent::UnlockReply(true),
            LockAction::Pause(_) => LockEvent::Paused,
            LockAction::Acquired(_) | LockAction::GiveUp => break,
        };
        drive(&mut s, event);
        events += 1;
    }
    assert_eq!(LockAction::GiveUp, s.action());
    assert_eq!(attempts * (2 * 4 + 3), events);
}

/// Redis instances as the lock sees them: one key space each, no expiry.
struct Instances {
    stores: Vec<HashMap<Vec<u8>, Vec<u8>>>,
}

impl Instances {
    fn new(n: usize) -> Instances {
        Instances { stores: (0..n).map(|_| HashMap::new()).collect() }
    }

    /// Runs the lock command on instance `i`: `SET key val NX PX ttl`.
    fn set(&mut self, i: usize, args: Vec<CommandArg>) -> SetReply {
        let bytes = |a: &CommandArg| match a {
            CommandArg::Bytes(b) => b.clone(),
            CommandArg::Number(n) => n.to_string().into_bytes(),
        };
        let words: Vec<Vec<u8>> = args.iter().map(bytes).collect();
        assert_eq!(6, words.len());
        assert_eq!(b"SET".to_vec(), words[0]);
        assert_eq!(b"nx".to_vec(), words[3]);
        assert_eq!(b"px".to_vec(), words[4]);
        let store = &mut self.stores[i];
        if store.contains_key(&words[1]) {
            SetReply::Other
        } else {
            store.insert(words[1].clone(), words[2].clone());
            SetReply::Okay
        }
    }

    /// Runs the unlock script on instance `i`.
    fn unlock(&mut self, i: usize, resource: &[u8], val: &[u8]) -> Option<i32> {
        let call = unlock_call(resource, val);
        let store = &mut self.stores[i];
        if store.get(&call.keys[0]) == Some(&call.args[0]) {
            store.remove(&call.keys[0]);
            Some(1)
        } else {
            Some(0)
        }
    }

    /// A call of `lock`, each request answered by these instances, each try
    /// taking one millisecond.
    fn lock<'a>(
        &mut self,
        rl: &'a RedisLock,
        resource: &[u8],
        val: Vec<u8>,
        ttl: usize,
        retry_count: Option<u32>,
        retry_delay: Option<u32>,
    ) -> Option<Lock<'a>> {
        let clock_drift = (ttl as f32 * 0.01) as usize;
        let mut s = rl.lock_session(resource, val, ttl, retry_count, retry_delay, clock_drift);
        loop {
            let event = match s.action() {
                LockAction::StartClock => LockEvent::ClockStarted,
                LockAction::LockServer(i) => {
                    let reply = self.set(i, lock_command(s.resource(), s.val(), ttl));
                    LockEvent::LockReply(lock_granted(reply))
                }
                LockAction::ReadClock => LockEvent::Elapsed { secs: 0, subsec_nanos: 1_000_000 },
                LockAction::UnlockServer(i) => {
                    let (resource, val) = (s.resource().to_vec(), s.val().to_vec());
                    LockEvent::UnlockReply(unlock_released(self.unlock(i, &resource, &val)))
                }
                LockAction::Pause(_) => LockEvent::Paused,
                LockAction::Acquired(_) | LockAction::GiveUp => return s.into_lock(rl),
            };
            drive(&mut s, event);
        }
    }

    /// A call of `unlock`: every instance is asked.
    fn unlock_all(&mut self, lock: &Lock) {
        for i in 0..self.stores.len() {
            self.unlock(i, &lock.resource, &lock.val);
        }
    }
}

#[test]
fn test_redlock_get_unique_id() {
    let _rl = RedisLock::new(Vec::<String>::new());
    let id = lock_id_from_read(random_char(Some(20))).expect("20 bytes make an id");
    assert_eq!(id.len(), 20);
}

#[test]
fn test_redlock_get_unique_id_uniqueness() {
    let _rl = RedisLock::new(Vec::<String>::new());
    let id1 = lock_id_from_read(random_char(Some(20))).unwrap();
    let id2 = lock_id_from_read(random_char(Some(20))).unwrap();
    assert_eq!(20, id1.len());
    assert_eq!(20, id2.len());
    assert_ne!(id1, id2);
}

#[test]
fn test_redlock_direct_unlock_fails() {
    let rl = RedisLock::new(addresses(3));
    let mut instances = Instances::new(rl.servers.len());
    let key = random_char(Some(20));
    let val = random_char(Some(20));
    assert!(!unlock_released(instances.unlock(0, &key, &val)));
}

#[test]
fn test_redlock_direct_unlock_succeeds() {
    let rl = RedisLock::new(addresses(3));
    let mut instances = Instances::new(rl.servers.len());
    let key = random_char(Some(20));
    let val = random_char(Some(20));
    instances.stores[0].insert(key.clone(), val.clone());
    assert!(unlock_released(instances.unlock(0, &key, &val)));
    assert!(instances.stores[0].is_empty());
}

#[test]
fn test_redlock_direct_lock_succeeds() {
    let rl = RedisLock::new(addresses(3));
    let mut instances = Instances::new(rl.servers.len());
    let key = random_char(Some(20));
    let val = random_char(Some(20));
    instances.stores[0].remove(&key);
    assert!(lock_granted(instances.set(0, lock_command(&key, &val, 1000))));
    assert_eq!(Some(&val), instances.stores[0].get(&key));
}

#[test]
fn test_redlock_unlock() {
    let rl = RedisLock::new(addresses(3));
    let mut instances = Instances::new(rl.servers.len());
    let key = random_char(Some(20));
    let val = random_char(Some(20));
    instances.stores[0].insert(key.clone(), val.clone());
    let lock = Lock { lock_manager: &rl, resource: key, val, validity_time: 0 };
    instances.unlock_all(&lock);
    assert!(instances.stores[0].is_empty());
}

#[test]
fn test_redlock_lock() {
    let rl = RedisLock::new(addresses(3));
    let mut instances = Instances::new(rl.servers.len());
    let key = random_char(Some(20));
    let val = random_char(Some(20));
    match instances.lock(&rl, &key, val, 1000, None, None) {
        Some(lock) => {
            assert_eq!(key, lock.resource);
            assert_eq!(20, lock.val.len());
            assert!(lock.validity_time > 900);
            assert!(lock.validity_time > 900, "validity time: {}", lock.validity_time);
        }
        None => panic!("Lock failed"),
    };
}

#[test]
fn test_redlock_lock_unlock() {
    let rl = RedisLock::new(addresses(3));
    let rl2 = RedisLock::new(addresses(3));
    let mut instances = Instances::new(rl.servers.len());
    let key = random_char(Some(20));
    let val1 = random_char(Some(20));
    let val2 = random_char(Some(20));

    let lock = instances.lock(&rl, &key, val1.clone(), 1000, None, None).unwrap();
    assert!(lock.validity_time > 900, "validity time: {}", lock.validity_time);

    if let Some(_l) = instances.lock(&rl2, &key, val2.clone(), 1000, None, None) {
        panic!("Lock acquired, even though it should be locked")
    }

    instances.unlock_all(&lock);

    match instances.lock(&rl2, &key, val2, 1000, None, None) {
        Some(l) => assert!(l.validity_time > 900),
        None => panic!("Lock couldn't be acquired"),
    }
}

#[test]
fn test_redlock_lock_unlock_raii() {
    let rl = RedisLock::new(addresses(3));
    let rl2 = RedisLock::new(addresses(3));
    let mut instances = Instances::new(rl.servers.len());
    let key = random_char(Some(20));
    let val1 = random_char(Some(20));
    let val2 = random_char(Some(20));
    {
        let lock = instances.lock(&rl, &key, val1.clone(), 1000, None, None).unwrap();
        assert!(lock.validity_time > 900, "validity time: {}", lock.validity_time);

        if let Some(_l) = instances.lock(&rl2, &key, val2.clone(), 1000, None, None) {
            panic!("Lock acquired, even though it should be locked")
        }
        // what the guard does when it goes out of scope
        instances.unlock_all(&lock);
    }

    match instances.lock(&rl2, &key, val2.clone(), 1000, None, None) {
        Some(l) => assert!(l.validity_time > 900),
        None => panic!("Lock couldn't be acquired"),
    }
}

#[test]
fn lock_command_and_unlock_call_contents() {
    let args = lock_command(b"res", b"val", 1500);
    assert_eq!(
        vec![
            CommandArg::Bytes(b"SET".to_vec()),
            CommandArg::Bytes(b"res".to_vec()),
            CommandArg::Bytes(b"val".to_vec()),
            CommandArg::Bytes(b"nx".to_vec()),
            CommandArg::Bytes(b"px".to_vec()),
            CommandArg::Number(1500),
        ],
        args
    );
    let call = unlock_call(b"res", b"val");
    assert_eq!(vec![b"res".to_vec()], call.keys);
    assert_eq!(vec![b"val".to_vec()], call.args);
    assert!(redislock::UNLOCK_SCRIPT.contains("redis.call('del',KEYS[1])"));
}

#[test]
fn new_keeps_one_client_per_uri_in_order() {
    let rl = RedisLock::new(vec!["redis://a:1".to_string(), "redis://b:2".to_string()]);
    let shown = format!("{:?}", rl.servers);
    let a = shown.find("\"a\"").expect("first address");
    let b = shown.find("\"b\"").expect("second address");
    assert!(a < b);
}

#[test]
fn unlock_undoes_lock_and_is_idempotent() {
    let mut instances = Instances::new(1);
    let key = b"key".to_vec();
    let val = b"val".to_vec();
    assert!(lock_granted(instances.set(0, lock_command(&key, &val, 1000))));
    assert!(unlock_released(instances.unlock(0, &key, &val)));
    assert!(instances.stores[0].is_empty());
    assert!(!unlock_released(instances.unlock(0, &key, &val)));
    assert!(instances.stores[0].is_empty());
}

#[test]
fn lock_stays_excluded_while_a_quorum_holds_it() {
    let rl = RedisLock::new(addresses(3));
    let rl2 = RedisLock::new(addresses(3));
    let mut instances = Instances::new(3);
    let key = b"shared".to_vec();
    let lock = instances.lock(&rl, &key, b"first".to_vec(), 1000, None, None).unwrap();
    assert_eq!(3, instances.stores.iter().filter(|st| st.get(&key) == Some(&lock.val)).count());
    // one instance lost the key: two of three still hold it
    instances.stores[2].clear();
    assert!(instances.lock(&rl2, &key, b"second".to_vec(), 1000, Some(5), None).is_none());
    // the failed tries released only their own value
    assert_eq!(Some(&b"first".to_vec()), instances.stores[0].get(&key));
    assert_eq!(Some(&b"first".to_vec()), instances.stores[1].get(&key));
    assert!(instances.stores[2].is_empty());
}
