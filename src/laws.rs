//! What holds of every resolution, stated over [`ResolverState`] and proved
//! for every state that a [`crate::resolver::Resolver`] can reach.
use vstd::prelude::*;

use crate::lock::{expired, expired_of, LockRecord, RegionVerId};
use crate::resolver::{
    accepts, after, consistent, current, request_of, Event, Phase, Request, ResolverState,
};
use crate::timestamp::Timestamp;

verus! {

/// Expiry: once the timestamp `now` is known, a lock whose time to live has
/// not passed at `now` is dropped from the batch, and every lock whose time to
/// live has passed stays in it, in its order. No later answer changes the
/// batch, so every lock that a request ever names has expired.
pub proof fn lemma_only_expired_locks_are_resolved(s: ResolverState, now: Timestamp, e: Event)
    requires
        consistent(s),
        s.phase is AwaitTimestamp,
    ensures
        after(s, Event::Timestamp(now)).locks == expired_of(now, s.locks),
        forall|l: LockRecord|
            s.locks.contains(l) && !expired(now, l)
                ==> !(#[trigger] after(s, Event::Timestamp(now)).locks.contains(l)),
        forall|l: LockRecord|
            s.locks.contains(l) && expired(now, l)
                ==> #[trigger] after(s, Event::Timestamp(now)).locks.contains(l),
        forall|i: int|
            0 <= i < after(s, Event::Timestamp(now)).locks.len()
                ==> expired(now, #[trigger] after(s, Event::Timestamp(now)).locks[i]),
{
    let p = |l: LockRecord| expired(now, l);
    let n = after(s, Event::Timestamp(now));
    assert forall|l: LockRecord| s.locks.contains(l) && !expired(now, l) implies !(
    #[trigger] n.locks.contains(l)) by {
        if n.locks.contains(l) {
            let i = choose|i: int| 0 <= i < n.locks.len() && n.locks[i] == l;
            s.locks.lemma_filter_pred(p, i);
        }
    }
    assert forall|l: LockRecord| s.locks.contains(l) && expired(now, l) implies #[trigger] n.locks.contains(l) by {
        let i = choose|i: int| 0 <= i < s.locks.len() && s.locks[i] == l;
        s.locks.lemma_filter_contains(p, i);
    }
    assert forall|i: int| 0 <= i < n.locks.len() implies expired(now, #[trigger] n.locks[i]) by {
        s.locks.lemma_filter_pred(p, i);
    }
}

/// Once the timestamp is known, no answer changes the batch of locks.
pub proof fn lemma_batch_is_fixed(s: ResolverState, e: Event)
    requires
        consistent(s),
        accepts(s, e),
        s.phase !is AwaitTimestamp,
    ensures
        after(s, e).locks == s.locks,
        after(s, e).now == s.now,
        forall|i: int| 0 <= i < s.locks.len() ==> expired(s.now, #[trigger] s.locks[i]),
{
}

/// Outcome consistency: every resolve command ever sent for a transaction
/// carries the one outcome learnt for it, and an outcome once learnt never
/// changes; the outcome learnt is the one the cleanup command on the primary
/// answered.
pub proof fn lemma_one_outcome_per_transaction(s: ResolverState, e: Event)
    requires
        consistent(s),
        accepts(s, e),
    ensures
        forall|j: int, k: int|
            0 <= j < s.issued.len() && 0 <= k < s.issued.len() && (#[trigger] s.issued[j]) is ResolveLock
                && (#[trigger] s.issued[k]) is ResolveLock && s.issued[j]->ResolveLock_start_version
                == s.issued[k]->ResolveLock_start_version ==> s.issued[j]->ResolveLock_commit_version
                == s.issued[k]->ResolveLock_commit_version,
        forall|k: int|
            0 <= k < s.issued.len() && (#[trigger] s.issued[k]) is ResolveLock
                ==> s.commits[s.issued[k]->ResolveLock_start_version]
                == s.issued[k]->ResolveLock_commit_version,
        s.commits.submap_of(after(s, e).commits),
        e is CleanedUp ==> request_of(s) == (Request::Cleanup {
            primary_key: current(s).primary_lock,
            start_version: current(s).lock_version,
        }),
        e is CleanedUp ==> after(s, e).commits == s.commits.insert(
            current(s).lock_version,
            e->commit_version,
        ),
        !(e is CleanedUp) ==> after(s, e).commits == s.commits,
{
}

/// Cache correctness for outcomes: at most one cleanup command is sent per
/// transaction start version.
pub proof fn lemma_one_cleanup_per_transaction(s: ResolverState)
    requires
        consistent(s),
    ensures
        forall|j: int, k: int|
            0 <= j < s.issued.len() && 0 <= k < s.issued.len() && j != k
                && (#[trigger] s.issued[j]) is Cleanup && (#[trigger] s.issued[k]) is Cleanup
                ==> s.issued[j]->Cleanup_start_version != s.issued[k]->Cleanup_start_version,
{
    assert forall|j: int, k: int|
        0 <= j < s.issued.len() && 0 <= k < s.issued.len() && j != k
            && (#[trigger] s.issued[j]) is Cleanup && (#[trigger] s.issued[k]) is Cleanup
            implies s.issued[j]->Cleanup_start_version != s.issued[k]->Cleanup_start_version by {
        if j > k {
            assert(s.issued[k]->Cleanup_start_version != s.issued[j]->Cleanup_start_version);
        }
    }
}

/// Cache correctness for shards: when the primary's shard incarnation was
/// already told the transaction's outcome, the lock is passed over with
/// neither a cleanup nor a resolve command.
pub proof fn lemma_cleaned_shard_is_skipped(s: ResolverState, region: RegionVerId, has_leader: bool)
    requires
        consistent(s),
        s.phase is AwaitPrimaryRegion,
        s.cleaned.contains((current(s).lock_version, region)),
    ensures
        after(s, Event::Located { region, has_leader }).index == s.index + 1,
        !(request_of(after(s, Event::Located { region, has_leader })) is Cleanup),
        !(request_of(after(s, Event::Located { region, has_leader })) is ResolveLock),
        after(s, Event::Located { region, has_leader }).commits == s.commits,
{
}

/// Routing resilience: a shard-routing error on a resolve command, and a shard
/// without a known leader, both lead to a fresh lookup of the lock's key and
/// nothing else; neither ends the resolution.
pub proof fn lemma_routing_failures_are_retried(s: ResolverState, region: RegionVerId)
    requires
        consistent(s),
    ensures
        s.phase is AwaitResolve ==> {
            &&& after(s, Event::RoutingError).phase == Phase::AwaitSecondaryRegion
            &&& request_of(after(s, Event::RoutingError)) == (Request::LocateKey { key: current(s).key })
            &&& after(s, Event::RoutingError).index == s.index
            &&& after(s, Event::RoutingError).commits == s.commits
            &&& after(s, Event::RoutingError).cleaned == s.cleaned
        },
        s.phase is AwaitSecondaryRegion ==> {
            let n = after(s, Event::Located { region, has_leader: false });
            &&& n.phase == Phase::AwaitSecondaryRegion
            &&& request_of(n) == (Request::LocateKey { key: current(s).key })
            &&& n.index == s.index
            &&& n.commits == s.commits
            &&& n.cleaned == s.cleaned
        },
{
}

} // verus!
