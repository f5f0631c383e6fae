use lock_resolver::{expired_locks, is_expired, Action, Event, LockInfo, RegionVerId, Resolver, Snapshot, Timestamp};

const T: u64 = 1000;

fn version_at(physical: u64, logical: u64) -> u64 {
    (physical << 18) | logical
}

fn now_at(physical: i64) -> Event {
    Event::Timestamp(Timestamp { physical, logical: 0 })
}

fn region(id: u64) -> RegionVerId {
    RegionVerId { id, conf_ver: 1, ver: 1 }
}

fn located(id: u64) -> Event {
    Event::Located { region: region(id), has_leader: true }
}

fn lock(key: &[u8], primary: &[u8], version: u64, ttl: u64) -> LockInfo {
    LockInfo::new(key.to_vec(), primary.to_vec(), version, ttl)
}

fn assert_locate(a: &Action, key: &[u8]) {
    match a {
        Action::LocateKey { key: k } => assert_eq!(k.as_slice(), key),
        other => panic!("expected a lookup of {:?}, got {:?}", key, other),
    }
}

fn assert_cleanup(a: &Action, key: &[u8], version: u64) {
    match a {
        Action::Cleanup { primary_key, start_version } => {
            assert_eq!(primary_key.as_slice(), key);
            assert_eq!(*start_version, version);
        }
        other => panic!("expected a cleanup, got {:?}", other),
    }
}

fn assert_resolve(a: &Action, version: u64, commit: u64) {
    match a {
        Action::ResolveLock { start_version, commit_version } => {
            assert_eq!(*start_version, version);
            assert_eq!(*commit_version, commit);
        }
        other => panic!("expected a resolve command, got {:?}", other),
    }
}

#[test]
fn from_version_splits_physical_and_logical() {
    let ts = Timestamp::from_version(version_at(T, 7));
    assert_eq!(ts.physical, 1000);
    assert_eq!(ts.logical, 7);
    let max = Timestamp::from_version(u64::MAX);
    assert_eq!(max.physical, (u64::MAX >> 18) as i64);
    assert_eq!(max.logical, 262143);
}

#[test]
fn expiry_boundary() {
    let l = lock(b"k", b"p", version_at(T, 3), 1000);
    assert!(!is_expired(&Timestamp { physical: 1999, logical: 0 }, &l));
    assert!(is_expired(&Timestamp { physical: 2000, logical: 0 }, &l));
    assert!(is_expired(&Timestamp { physical: 5000, logical: 0 }, &l));
    assert!(!is_expired(&Timestamp { physical: i64::MIN, logical: 0 }, &l));
    let zero = lock(b"k", b"p", version_at(T, 0), 0);
    assert!(is_expired(&Timestamp { physical: 1000, logical: 0 }, &zero));
    let huge = lock(b"k", b"p", version_at(T, 0), u64::MAX);
    assert!(!is_expired(&Timestamp { physical: i64::MAX, logical: 0 }, &huge));
}

#[test]
fn expired_locks_keeps_order_and_drops_live_ones() {
    let now = Timestamp { physical: 3000, logical: 0 };
    let locks = vec![
        lock(b"a", b"p", version_at(1000, 0), 1000),
        lock(b"b", b"p", version_at(2500, 0), 1000),
        lock(b"c", b"p", version_at(2000, 0), 1000),
    ];
    let out = expired_locks(&now, &locks);
    assert_eq!(out.len(), 2);
    assert_eq!(out[0].key, b"a".to_vec());
    assert_eq!(out[1].key, b"c".to_vec());
    assert_eq!(out[1].primary_lock, b"p".to_vec());
    assert!(expired_locks(&now, &Vec::new()).is_empty());
}

#[test]
fn empty_batch_only_fetches_timestamp() {
    let (mut r, first) = Resolver::new(Vec::new());
    assert!(matches!(first, Action::FetchTimestamp));
    assert!(matches!(r.step(now_at(5000)), Action::Finished));
    assert!(!r.accepts(&Event::Resolved));
}

#[test]
fn two_secondaries_share_one_cleanup() {
    let v = version_at(T, 1);
    let locks = vec![lock(b"s1", b"p", v, 1000), lock(b"s2", b"p", v, 1000)];
    let (mut r, first) = Resolver::new(locks);
    assert!(matches!(first, Action::FetchTimestamp));
    let mut cleanups = 0;
    let mut resolves = Vec::new();
    let mut action = r.step(now_at(5000));
    let mut script = vec![located(10), Event::CleanedUp { commit_version: 77 }, located(1), Event::Resolved,
        located(10), located(2), Event::Resolved].into_iter();
    loop {
        match &action {
            Action::Cleanup { .. } => cleanups += 1,
            Action::ResolveLock { start_version, commit_version } => resolves.push((*start_version, *commit_version)),
            Action::Finished => break,
            _ => {}
        }
        let e = script.next().expect("the resolver asked for more than the script holds");
        assert!(r.accepts(&e));
        action = r.step(e);
    }
    assert!(script.next().is_none());
    assert_eq!(cleanups, 1);
    assert_eq!(resolves, vec![(v, 77), (v, 77)]);
}

#[test]
fn lock_within_ttl_is_left_alone() {
    let locks = vec![lock(b"s", b"p", version_at(T, 0), 1000)];
    let (mut r, _) = Resolver::new(locks);
    assert!(matches!(r.step(now_at(1500)), Action::Finished));
    assert!(matches!(r.request(), Action::Finished));
}

#[test]
fn rolled_back_transaction_resolves_as_rollback() {
    let v = version_at(T, 2);
    let (mut r, _) = Resolver::new(vec![lock(b"s", b"p", v, 10)]);
    assert_locate(&r.step(now_at(2000)), b"p");
    assert_cleanup(&r.step(located(3)), b"p", v);
    assert_locate(&r.step(Event::CleanedUp { commit_version: 0 }), b"s");
    assert_resolve(&r.step(located(4)), v, 0);
    assert!(matches!(r.step(Event::Resolved), Action::Finished));
}

#[test]
fn routing_error_then_success_resolves_once() {
    let v = version_at(T, 5);
    let (mut r, _) = Resolver::new(vec![lock(b"s", b"p", v, 10)]);
    assert_locate(&r.step(now_at(2000)), b"p");
    assert_cleanup(&r.step(located(3)), b"p", v);
    assert_locate(&r.step(Event::CleanedUp { commit_version: 90 }), b"s");
    assert_resolve(&r.step(located(4)), v, 90);
    assert_locate(&r.step(Event::RoutingError), b"s");
    assert_resolve(&r.step(located(5)), v, 90);
    assert!(matches!(r.step(Event::Resolved), Action::Finished));
}

#[test]
fn shard_without_leader_is_looked_up_again() {
    let v = version_at(T, 6);
    let (mut r, _) = Resolver::new(vec![lock(b"s", b"p", v, 10)]);
    r.step(now_at(2000));
    r.step(located(3));
    assert_locate(&r.step(Event::CleanedUp { commit_version: 12 }), b"s");
    assert_locate(&r.step(Event::Located { region: region(4), has_leader: false }), b"s");
    assert_resolve(&r.step(located(4)), v, 12);
}

#[test]
fn cleaned_shard_is_skipped() {
    let v = version_at(T, 8);
    let locks = vec![lock(b"p", b"p", v, 10), lock(b"q", b"p", v, 10)];
    let (mut r, _) = Resolver::new(locks);
    assert_locate(&r.step(now_at(2000)), b"p");
    assert_cleanup(&r.step(located(3)), b"p", v);
    assert_locate(&r.step(Event::CleanedUp { commit_version: 15 }), b"p");
    assert_resolve(&r.step(located(3)), v, 15);
    assert_locate(&r.step(Event::Resolved), b"p");
    assert!(matches!(r.step(located(3)), Action::Finished));
}

#[test]
fn new_shard_incarnation_is_not_skipped() {
    let v = version_at(T, 9);
    let locks = vec![lock(b"p", b"p", v, 10), lock(b"q", b"p", v, 10)];
    let (mut r, _) = Resolver::new(locks);
    r.step(now_at(2000));
    r.step(located(3));
    r.step(Event::CleanedUp { commit_version: 15 });
    r.step(located(3));
    r.step(Event::Resolved);
    let split = Event::Located { region: RegionVerId { id: 3, conf_ver: 1, ver: 2 }, has_leader: true };
    assert_locate(&r.step(split), b"q");
}

#[test]
fn separate_transactions_each_get_a_cleanup() {
    let v1 = version_at(T, 1);
    let v2 = version_at(T, 2);
    let locks = vec![lock(b"a", b"p1", v1, 10), lock(b"b", b"p2", v2, 10)];
    let (mut r, _) = Resolver::new(locks);
    assert_locate(&r.step(now_at(2000)), b"p1");
    assert_cleanup(&r.step(located(1)), b"p1", v1);
    r.step(Event::CleanedUp { commit_version: 0 });
    assert_resolve(&r.step(located(1)), v1, 0);
    assert_locate(&r.step(Event::Resolved), b"p2");
    assert_cleanup(&r.step(located(1)), b"p2", v2);
    r.step(Event::CleanedUp { commit_version: 44 });
    assert_resolve(&r.step(located(1)), v2, 44);
    assert!(matches!(r.step(Event::Resolved), Action::Finished));
}

#[test]
fn accepts_only_the_awaited_answer() {
    let (r, _) = Resolver::new(vec![lock(b"s", b"p", 1, 10)]);
    assert!(r.accepts(&now_at(1)));
    assert!(!r.accepts(&located(1)));
    assert!(!r.accepts(&Event::CleanedUp { commit_version: 1 }));
    assert!(!r.accepts(&Event::RoutingError));
}

#[test]
fn snapshot_hands_back_its_transaction() {
    let s = Snapshot::new(41u32);
    assert_eq!(*s.transaction(), 41);
}
