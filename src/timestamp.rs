use vstd::prelude::*;

verus! {

/// A version packs a physical time in its bits above the low 18, which hold
/// a logical counter; the counter stays below this bound (`1 << 18`).
pub const LOGICAL_RANGE: u64 = 262144;

/// A point of the store's logical clock.
///
/// `physical` is derived from wall-clock milliseconds, `logical` counts within
/// one millisecond. Only the physical part is used to judge a lock's time to
/// live.
#[derive(Clone, Copy, Debug, PartialEq, Eq, Structural)]
pub struct Timestamp {
    pub physical: i64,
    pub logical: i64,
}

/// The physical time packed into a version.
pub open spec fn physical_of(version: u64) -> int {
    version as int / LOGICAL_RANGE as int
}

/// The logical counter packed into a version.
pub open spec fn logical_of(version: u64) -> int {
    version as int % LOGICAL_RANGE as int
}

impl Timestamp {
    /// Splits a version into its physical and logical parts.
    pub fn from_version(version: u64) -> (r: Timestamp)
        ensures
            r.physical == physical_of(version),
            r.logical == logical_of(version),
    {
        let physical: u64 = version / LOGICAL_RANGE;
        let logical: u64 = version % LOGICAL_RANGE;
        assert(physical <= u64::MAX / LOGICAL_RANGE);
        Timestamp { physical: physical as i64, logical: logical as i64 }
    }
}

} // verus!
