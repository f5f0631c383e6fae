//! Lock resolution for a client of a sharded, multi-version transactional
//! key-value store.
//!
//! A transaction that stalls or crashes leaves locks on its keys. The
//! [`resolver::Resolver`] decides which of those locks have expired, learns
//! each transaction's outcome once from its primary key, and drives every
//! expired lock to that outcome on the shard that currently owns it. The
//! network work is left to the caller: the resolver hands out one request at
//! a time and takes back what came of it.

pub mod timestamp;
pub mod lock;
pub mod resolver;
pub mod snapshot;
pub mod laws;

pub use lock::{expired_locks, is_expired, HasLocks, LockInfo, RegionVerId};
pub use resolver::{Action, Event, Resolver};
pub use snapshot::Snapshot;
pub use timestamp::Timestamp;
