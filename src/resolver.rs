use vstd::prelude::*;

use std::collections::HashMap;

use crate::lock::{copy_bytes, expired, expired_locks, expired_of, lock_records, LockInfo, LockRecord, RegionVerId};
use crate::timestamp::Timestamp;

verus! {

broadcast use vstd::std_specs::hash::group_hash_axioms;

/// What the resolver waits for.
#[derive(Clone, Copy, Debug, PartialEq, Eq, Structural)]
pub enum Phase {
    /// The current timestamp, which judges every lock of the batch.
    AwaitTimestamp,
    /// The shard that owns the current lock's primary key.
    AwaitPrimaryRegion,
    /// The outcome of the current lock's transaction, from its primary.
    AwaitCleanup,
    /// The shard that owns the current lock's key.
    AwaitSecondaryRegion,
    /// The answer of `region` to the resolve command.
    AwaitResolve { region: RegionVerId },
    /// Nothing: every expired lock is resolved.
    Done,
}

/// A request the resolver hands to its caller.
#[derive(Debug)]
pub enum Action {
    /// Fetch the current timestamp from the placement service.
    FetchTimestamp,
    /// Look up the shard that owns `key` now.
    LocateKey { key: Vec<u8> },
    /// Learn, or force, the outcome of the transaction that started at
    /// `start_version` by a cleanup command on its primary key.
    Cleanup { primary_key: Vec<u8>, start_version: u64 },
    /// Send a resolve command, on the shard last located, that drives the
    /// transaction's locks there to `commit_version` (0: roll back).
    ResolveLock { start_version: u64, commit_version: u64 },
    /// Nothing is left to do.
    Finished,
}

/// The values of an [`Action`].
pub enum Request {
    FetchTimestamp,
    LocateKey { key: Seq<u8> },
    Cleanup { primary_key: Seq<u8>, start_version: u64 },
    ResolveLock { start_version: u64, commit_version: u64 },
    Finished,
}

impl View for Action {
    type V = Request;

    open spec fn view(&self) -> Request {
        match self {
            Action::FetchTimestamp => Request::FetchTimestamp,
            Action::LocateKey { key } => Request::LocateKey { key: key@ },
            Action::Cleanup { primary_key, start_version } => Request::Cleanup {
                primary_key: primary_key@,
                start_version: *start_version,
            },
            Action::ResolveLock { start_version, commit_version } => Request::ResolveLock {
                start_version: *start_version,
                commit_version: *commit_version,
            },
            Action::Finished => Request::Finished,
        }
    }
}

/// What came of the last request. A failure that is not a routing error is
/// not an event: it ends the resolution with that failure.
#[derive(Clone, Copy, Debug, PartialEq, Eq, Structural)]
pub enum Event {
    /// The current timestamp.
    Timestamp(Timestamp),
    /// The shard that owns the key; `has_leader` is false when no leader is
    /// known for it, so no request context can be built.
    Located { region: RegionVerId, has_leader: bool },
    /// The cleanup command's answer: the commit version, or 0 if rolled back.
    CleanedUp { commit_version: u64 },
    /// The resolve command succeeded.
    Resolved,
    /// The resolve command failed with a shard-routing error (stale epoch,
    /// not leader, key not in region, ...).
    RoutingError,
}

/// The values of a [`Resolver`].
pub struct ResolverState {
    /// The locks; once the timestamp is known, the expired ones only.
    pub locks: Seq<LockRecord>,
    /// The timestamp that judges expiry.
    pub now: Timestamp,
    /// The position of the current lock in `locks`.
    pub index: int,
    pub phase: Phase,
    /// The outcome applied to the current lock.
    pub commit_version: u64,
    /// The outcome learnt for each start version.
    pub commits: Map<u64, u64>,
    /// The shard incarnations already told the outcome of a start version.
    pub cleaned: Set<(u64, RegionVerId)>,
    /// Every request handed out so far, in order.
    pub issued: Seq<Request>,
}

/// The lock being resolved.
pub open spec fn current(s: ResolverState) -> LockRecord {
    s.locks[s.index]
}

/// The request that the state waits on the answer of.
pub open spec fn request_of(s: ResolverState) -> Request {
    match s.phase {
        Phase::AwaitTimestamp => Request::FetchTimestamp,
        Phase::AwaitPrimaryRegion => Request::LocateKey { key: current(s).primary_lock },
        Phase::AwaitCleanup => Request::Cleanup {
            primary_key: current(s).primary_lock,
            start_version: current(s).lock_version,
        },
        Phase::AwaitSecondaryRegion => Request::LocateKey { key: current(s).key },
        Phase::AwaitResolve { .. } => Request::ResolveLock {
            start_version: current(s).lock_version,
            commit_version: s.commit_version,
        },
        Phase::Done => Request::Finished,
    }
}

/// Whether `e` answers the request that `s` waits on.
pub open spec fn accepts(s: ResolverState, e: Event) -> bool {
    match s.phase {
        Phase::AwaitTimestamp => e is Timestamp,
        Phase::AwaitPrimaryRegion => e is Located,
        Phase::AwaitCleanup => e is CleanedUp,
        Phase::AwaitSecondaryRegion => e is Located,
        Phase::AwaitResolve { .. } => e is Resolved || e is RoutingError,
        Phase::Done => false,
    }
}

/// Makes the lock at `index` current, or ends when none is left.
pub open spec fn moved_to(s: ResolverState, index: int) -> ResolverState {
    ResolverState {
        index,
        phase: if index < s.locks.len() { Phase::AwaitPrimaryRegion } else { Phase::Done },
        ..s
    }
}

/// The state after `e`, but for the request it hands out.
pub open spec fn next_state(s: ResolverState, e: Event) -> ResolverState {
    let v = current(s).lock_version;
    match e {
        Event::Timestamp(now) => moved_to(ResolverState { locks: expired_of(now, s.locks), now, ..s }, 0),
        Event::Located { region, has_leader } => {
            if s.phase is AwaitPrimaryRegion {
                if s.cleaned.contains((v, region)) {
                    moved_to(s, s.index + 1)
                } else if s.commits.contains_key(v) {
                    ResolverState { phase: Phase::AwaitSecondaryRegion, commit_version: s.commits[v], ..s }
                } else {
                    ResolverState { phase: Phase::AwaitCleanup, ..s }
                }
            } else if has_leader {
                ResolverState { phase: Phase::AwaitResolve { region }, ..s }
            } else {
                s
            }
        },
        Event::CleanedUp { commit_version } => ResolverState {
            phase: Phase::AwaitSecondaryRegion,
            commit_version,
            commits: s.commits.insert(v, commit_version),
            ..s
        },
        Event::Resolved => moved_to(
            ResolverState { cleaned: s.cleaned.insert((v, s.phase->region)), ..s },
            s.index + 1,
        ),
        Event::RoutingError => ResolverState { phase: Phase::AwaitSecondaryRegion, ..s },
    }
}

/// The state after `e`, with the request it hands out recorded.
pub open spec fn after(s: ResolverState, e: Event) -> ResolverState {
    let n = next_state(s, e);
    ResolverState { issued: s.issued.push(request_of(n)), ..n }
}

/// What every reachable state satisfies.
pub open spec fn consistent(s: ResolverState) -> bool {
    &&& 0 <= s.index <= s.locks.len()
    &&& (s.phase !is AwaitTimestamp && s.phase !is Done) ==> s.index < s.locks.len()
    &&& s.phase !is AwaitTimestamp ==> forall|i: int|
        0 <= i < s.locks.len() ==> expired(s.now, #[trigger] s.locks[i])
    &&& (s.phase is AwaitSecondaryRegion || s.phase is AwaitResolve) ==> {
        &&& s.commits.contains_key(current(s).lock_version)
        &&& s.commits[current(s).lock_version] == s.commit_version
    }
    &&& s.phase is AwaitCleanup ==> !s.commits.contains_key(current(s).lock_version)
    &&& s.issued.len() > 0
    &&& s.issued.last() == request_of(s)
    &&& forall|k: int|
        0 <= k < s.issued.len() && (#[trigger] s.issued[k]) is Cleanup ==> {
            ||| s.commits.contains_key(s.issued[k]->Cleanup_start_version)
            ||| s.phase is AwaitCleanup && k == s.issued.len() - 1
        }
    &&& forall|j: int, k: int|
        0 <= j < k < s.issued.len() && (#[trigger] s.issued[j]) is Cleanup
            && (#[trigger] s.issued[k]) is Cleanup
            ==> s.issued[j]->Cleanup_start_version != s.issued[k]->Cleanup_start_version
    &&& forall|k: int|
        0 <= k < s.issued.len() && (#[trigger] s.issued[k]) is ResolveLock ==> {
            &&& s.commits.contains_key(s.issued[k]->ResolveLock_start_version)
            &&& s.commits[s.issued[k]->ResolveLock_start_version]
                == s.issued[k]->ResolveLock_commit_version
        }
}

/// The state before any request is answered.
pub open spec fn initial(locks: Seq<LockRecord>) -> ResolverState {
    ResolverState {
        locks,
        now: Timestamp { physical: 0, logical: 0 },
        index: 0,
        phase: Phase::AwaitTimestamp,
        commit_version: 0,
        commits: Map::empty(),
        cleaned: Set::empty(),
        issued: seq![Request::FetchTimestamp],
    }
}

/// Every answer keeps the invariant.
pub proof fn lemma_after_keeps_invariant(s: ResolverState, e: Event)
    requires
        consistent(s),
        accepts(s, e),
    ensures
        consistent(after(s, e)),
{
    let n = after(s, e);
    assert(n.issued.last() == request_of(n));
    assert forall|k: int| 0 <= k < n.issued.len() - 1 implies n.issued[k] == s.issued[k] by {}
    if e is Timestamp {
        let now = e->Timestamp_0;
        assert forall|i: int| 0 <= i < n.locks.len() implies expired(n.now, #[trigger] n.locks[i]) by {
            let p = |l: LockRecord| expired(now, l);
            s.locks.lemma_filter_pred(p, i);
        }
    }
}

/// The resolution of one batch of locks.
///
/// Each request it hands out is answered by an [`Event`] passed to
/// [`Resolver::step`]; it ends with [`Action::Finished`].
pub struct Resolver {
    locks: Vec<LockInfo>,
    now: Timestamp,
    index: usize,
    phase: Phase,
    commit_version: u64,
    commit_versions: HashMap<u64, u64>,
    cleaned: Vec<(u64, RegionVerId)>,
    issued: Ghost<Seq<Request>>,
}

impl Resolver {
    /// The values of this resolver.
    pub closed spec fn state(&self) -> ResolverState {
        ResolverState {
            locks: lock_records(self.locks@),
            now: self.now,
            index: self.index as int,
            phase: self.phase,
            commit_version: self.commit_version,
            commits: self.commit_versions@,
            cleaned: self.cleaned@.to_set(),
            issued: self.issued@,
        }
    }

    /// Holds of every resolver.
    pub closed spec fn wf(&self) -> bool {
        consistent(self.state())
    }

    /// A resolver for `locks`, and its first request: the current timestamp.
    pub fn new(locks: Vec<LockInfo>) -> (r: (Resolver, Action))
        ensures
            r.0.wf(),
            r.0.state() == initial(lock_records(locks@)),
            r.1@ == Request::FetchTimestamp,
    {
        let issued: Ghost<Seq<Request>> = Ghost(Seq::empty().push(Request::FetchTimestamp));
        let resolver = Resolver {
            locks,
            now: Timestamp { physical: 0, logical: 0 },
            index: 0,
            phase: Phase::AwaitTimestamp,
            commit_version: 0,
            commit_versions: HashMap::new(),
            cleaned: Vec::new(),
            issued,
        };
        assert(resolver.cleaned@.to_set() =~= Set::empty());
        assert(resolver.state().commits =~= Map::empty());
        (resolver, Action::FetchTimestamp)
    }

    /// The request this resolver waits on the answer of.
    pub fn request(&self) -> (r: Action)
        requires
            self.wf(),
        ensures
            r@ == request_of(self.state()),
    {
        self.request_at()
    }

    fn request_at(&self) -> (r: Action)
        requires
            (self.phase !is AwaitTimestamp && self.phase !is Done) ==> self.index < self.locks.len(),
        ensures
            r@ == request_of(self.state()),
    {
        match self.phase {
            Phase::AwaitTimestamp => Action::FetchTimestamp,
            Phase::AwaitPrimaryRegion => Action::LocateKey { key: copy_bytes(&self.locks[self.index].primary_lock) },
            Phase::AwaitCleanup => Action::Cleanup {
                primary_key: copy_bytes(&self.locks[self.index].primary_lock),
                start_version: self.locks[self.index].lock_version,
            },
            Phase::AwaitSecondaryRegion => Action::LocateKey { key: copy_bytes(&self.locks[self.index].key) },
            Phase::AwaitResolve { .. } => Action::ResolveLock {
                start_version: self.locks[self.index].lock_version,
                commit_version: self.commit_version,
            },
            Phase::Done => Action::Finished,
        }
    }

    /// Whether `e` answers the request this resolver waits on.
    pub fn accepts(&self, e: &Event) -> (r: bool)
        ensures
            r == accepts(self.state(), *e),
    {
        match self.phase {
            Phase::AwaitTimestamp => matches!(e, Event::Timestamp(_)),
            Phase::AwaitPrimaryRegion => matches!(e, Event::Located { .. }),
            Phase::AwaitCleanup => matches!(e, Event::CleanedUp { .. }),
            Phase::AwaitSecondaryRegion => matches!(e, Event::Located { .. }),
            Phase::AwaitResolve { .. } => matches!(e, Event::Resolved | Event::RoutingError),
            Phase::Done => false,
        }
    }

    /// Whether the shard incarnation `region` was told the outcome of the
    /// transaction that started at `version`.
    fn is_cleaned(&self, version: u64, region: RegionVerId) -> (r: bool)
        ensures
            r == self.state().cleaned.contains((version, region)),
    {
        let mut i: usize = 0;
        while i < self.cleaned.len()
            invariant
                i <= self.cleaned.len(),
                forall|j: int| 0 <= j < i ==> self.cleaned@[j] != (version, region),
            decreases self.cleaned.len() - i,
        {
            let c = self.cleaned[i];
            if c.0 == version && c.1.id == region.id && c.1.conf_ver == region.conf_ver
                && c.1.ver == region.ver {
                assert(self.cleaned@.to_set().contains(self.cleaned@[i as int]));
                return true;
            }
            i = i + 1;
        }
        false
    }

    /// Moves on to the lock at `index`, or ends when none is left.
    fn move_to(&mut self, index: usize)
        requires
            index <= old(self).locks.len(),
        ensures
            final(self).state() == moved_to(old(self).state(), index as int),
    {
        self.index = index;
        if index < self.locks.len() {
            self.phase = Phase::AwaitPrimaryRegion;
        } else {
            self.phase = Phase::Done;
        }
    }

    /// Takes the answer to the last request and hands out the next one.
    pub fn step(&mut self, e: Event) -> (r: Action)
        requires
            old(self).wf(),
            accepts(old(self).state(), e),
        ensures
            final(self).wf(),
            final(self).state() == after(old(self).state(), e),
            r@ == request_of(final(self).state()),
    {
        let ghost s = self.state();
        assert(s.locks.len() == self.locks.len());
        proof {
            lemma_after_keeps_invariant(s, e);
        }
        match e {
            Event::Timestamp(now) => {
                self.locks = expired_locks(&now, &self.locks);
                self.now = now;
                self.move_to(0);
            },
            Event::Located { region, has_leader } => {
                if self.phase == Phase::AwaitPrimaryRegion {
                    let version = self.locks[self.index].lock_version;
                    if self.is_cleaned(version, region) {
                        self.move_to(self.index + 1);
                    } else {
                        match self.commit_versions.get(&version) {
                            Some(c) => {
                                self.commit_version = *c;
                                self.phase = Phase::AwaitSecondaryRegion;
                            },
                            None => {
                                self.phase = Phase::AwaitCleanup;
                            },
                        }
                    }
                } else if has_leader {
                    self.phase = Phase::AwaitResolve { region };
                }
            },
            Event::CleanedUp { commit_version } => {
                let version = self.locks[self.index].lock_version;
                self.commit_versions.insert(version, commit_version);
                self.commit_version = commit_version;
                self.phase = Phase::AwaitSecondaryRegion;
            },
            Event::Resolved => {
                let version = self.locks[self.index].lock_version;
                if let Phase::AwaitResolve { region } = self.phase {
                    let ghost before = self.cleaned@;
                    self.cleaned.push((version, region));
                    proof {
                        before.lemma_push_to_set_commute((version, region));
                        assert(self.cleaned@.to_set() =~= s.cleaned.insert((version, region)));
                    }
                }
                self.move_to(self.index + 1);
            },
            Event::RoutingError => {
                self.phase = Phase::AwaitSecondaryRegion;
            },
        }
        assert(self.state().locks.len() == self.locks.len());
        let r = self.request_at();
        self.issued = Ghost(self.issued@.push(r@));
        r
    }
}

} // verus!
