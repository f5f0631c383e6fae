use vstd::prelude::*;

use crate::timestamp::{physical_of, Timestamp};

verus! {

/// A lock left on one key by one transaction attempt.
#[derive(Debug)]
pub struct LockInfo {
    /// The locked key.
    pub key: Vec<u8>,
    /// The key that holds the transaction's commit decision.
    pub primary_lock: Vec<u8>,
    /// The transaction's start version; it identifies the attempt.
    pub lock_version: u64,
    /// Milliseconds after which the lock may be taken as abandoned.
    pub lock_ttl: u64,
}

/// What a [`LockInfo`] holds, as values.
pub struct LockRecord {
    pub key: Seq<u8>,
    pub primary_lock: Seq<u8>,
    pub lock_version: u64,
    pub lock_ttl: u64,
}

impl View for LockInfo {
    type V = LockRecord;

    open spec fn view(&self) -> LockRecord {
        LockRecord {
            key: self.key@,
            primary_lock: self.primary_lock@,
            lock_version: self.lock_version,
            lock_ttl: self.lock_ttl,
        }
    }
}

/// The values of a sequence of locks.
pub open spec fn lock_records(locks: Seq<LockInfo>) -> Seq<LockRecord> {
    locks.map_values(|l: LockInfo| l@)
}

/// A lock has expired once at least its time to live has passed, in physical
/// time, between its start version and `now`.
pub open spec fn expired(now: Timestamp, lock: LockRecord) -> bool {
    now.physical - physical_of(lock.lock_version) >= lock.lock_ttl
}

/// The expired locks among `locks`, in their order.
pub open spec fn expired_of(now: Timestamp, locks: Seq<LockRecord>) -> Seq<LockRecord> {
    locks.filter(|l: LockRecord| expired(now, l))
}

/// A copy of a byte string.
pub(crate) fn copy_bytes(b: &Vec<u8>) -> (r: Vec<u8>)
    ensures
        r@ == b@,
{
    let mut r: Vec<u8> = Vec::new();
    let mut i: usize = 0;
    while i < b.len()
        invariant
            i <= b.len(),
            r@ == b@.take(i as int),
        decreases b.len() - i,
    {
        r.push(b[i]);
        i = i + 1;
        assert(r@ =~= b@.take(i as int));
    }
    assert(r@ =~= b@);
    r
}

impl LockInfo {
    pub fn new(key: Vec<u8>, primary_lock: Vec<u8>, lock_version: u64, lock_ttl: u64) -> (r: LockInfo)
        ensures
            r@ == (LockRecord { key: key@, primary_lock: primary_lock@, lock_version, lock_ttl }),
    {
        LockInfo { key, primary_lock, lock_version, lock_ttl }
    }

    /// A lock with the same values.
    pub fn duplicate(&self) -> (r: LockInfo)
        ensures
            r@ == self@,
    {
        LockInfo {
            key: copy_bytes(&self.key),
            primary_lock: copy_bytes(&self.primary_lock),
            lock_version: self.lock_version,
            lock_ttl: self.lock_ttl,
        }
    }
}

/// Whether `lock` has expired at `now`.
pub fn is_expired(now: &Timestamp, lock: &LockInfo) -> (r: bool)
    ensures
        r == expired(*now, lock@),
{
    let start = Timestamp::from_version(lock.lock_version);
    (now.physical as i128) - (start.physical as i128) >= lock.lock_ttl as i128
}

/// The locks of `locks` that have expired at `now`, in their order; the
/// others are left out.
pub fn expired_locks(now: &Timestamp, locks: &Vec<LockInfo>) -> (r: Vec<LockInfo>)
    ensures
        lock_records(r@) == expired_of(*now, lock_records(locks@)),
{
    let mut r: Vec<LockInfo> = Vec::new();
    let mut i: usize = 0;
    while i < locks.len()
        invariant
            i <= locks.len(),
            lock_records(r@) == expired_of(*now, lock_records(locks@.take(i as int))),
        decreases locks.len() - i,
    {
        let ghost before = r@;
        let ghost prefix = lock_records(locks@.take(i as int));
        let ghost next = lock_records(locks@.take(i as int + 1));
        assert(next.drop_last() =~= prefix);
        assert(next.last() == locks@[i as int]@);
        reveal_with_fuel(Seq::filter, 1);
        if is_expired(now, &locks[i]) {
            r.push(locks[i].duplicate());
            assert(lock_records(r@) =~= lock_records(before).push(locks@[i as int]@));
        }
        i = i + 1;
    }
    assert(locks@.take(locks.len() as int) =~= locks@);
    r
}

/// Identifies one incarnation of a shard: it changes whenever the shard's
/// membership or epoch does.
#[derive(Clone, Copy, Debug, PartialEq, Eq, Structural, Hash)]
pub struct RegionVerId {
    pub id: u64,
    pub conf_ver: u64,
    pub ver: u64,
}

/// A store response that may carry locks it ran into.
pub trait HasLocks {
    /// Takes the locks out of the response; a second call finds none.
    fn take_locks(&mut self) -> Vec<LockInfo>;
}

} // verus!
