use vstd::prelude::*;

verus! {

/// A read-only transaction, which may read at a timestamp of its own
/// choosing.
///
/// Reads go to the transaction it wraps; the snapshot only keeps writes out
/// of reach.
pub struct Snapshot<T> {
    transaction: T,
}

impl<T> Snapshot<T> {
    /// The transaction that reads for this snapshot.
    pub closed spec fn reader(&self) -> T {
        self.transaction
    }

    pub fn new(transaction: T) -> (r: Snapshot<T>)
        ensures
            r.reader() == transaction,
    {
        Snapshot { transaction }
    }

    /// The transaction that reads for this snapshot, read-only.
    pub fn transaction(&self) -> (r: &T)
        ensures
            *r == self.reader(),
    {
        &self.transaction
    }
}

} // verus!
