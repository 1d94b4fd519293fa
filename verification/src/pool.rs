//! The concurrency-permit model: a counting admission control shared by
//! all in-flight downloads. A worker holds its permit for its whole
//! lifecycle, so no more than the fixed capacity of workers ever run the
//! external tool at the same time.

use vstd::prelude::*;

verus! {

/// The default pool capacity: at most this many downloads run at once.
pub const DEFAULT_POOL_CAPACITY: u64 = 6;

/// A counting permit pool.
pub struct PermitPool {
    capacity: u64,
    in_use: u64,
    open: bool,
}

impl PermitPool {
    /// How many permits exist in all.
    pub closed spec fn capacity(&self) -> u64 {
        self.capacity
    }

    /// How many permits are held right now.
    pub closed spec fn in_use(&self) -> u64 {
        self.in_use
    }

    /// Whether the pool still hands out permits (false once shutdown
    /// has begun; already-granted permits stay valid).
    pub closed spec fn is_open(&self) -> bool {
        self.open
    }

    /// The pool invariant: the permits held never exceed the capacity.
    pub closed spec fn wf(&self) -> bool {
        self.in_use <= self.capacity
    }

    /// A fresh pool with every permit available.
    pub fn new(capacity: u64) -> (r: PermitPool)
        ensures
            r.wf(),
            r.capacity() == capacity,
            r.in_use() == 0,
            r.is_open(),
    {
        PermitPool { capacity, in_use: 0, open: true }
    }

    /// Tries to take one permit. Succeeds exactly when the pool is open
    /// and below capacity; the ceiling is never exceeded.
    pub fn try_acquire(&mut self) -> (granted: bool)
        requires
            old(self).wf(),
        ensures
            final(self).wf(),
            final(self).capacity() == old(self).capacity(),
            final(self).is_open() == old(self).is_open(),
            granted <==> (old(self).is_open() && old(self).in_use() < old(self).capacity()),
            granted ==> final(self).in_use() == old(self).in_use() + 1,
            !granted ==> final(self).in_use() == old(self).in_use(),
            final(self).in_use() <= final(self).capacity(),
    {
        if self.open && self.in_use < self.capacity {
            self.in_use = self.in_use + 1;
            true
        } else {
            false
        }
    }

    /// Returns one permit after a worker's whole lifecycle has finished.
    pub fn release(&mut self)
        requires
            old(self).wf(),
            old(self).in_use() > 0,
        ensures
            final(self).wf(),
            final(self).capacity() == old(self).capacity(),
            final(self).is_open() == old(self).is_open(),
            final(self).in_use() == old(self).in_use() - 1,
    {
        self.in_use = self.in_use - 1;
    }

    /// Stops handing out permits; acquisition failures then stop further
    /// dispatch silently while granted permits run to completion.
    pub fn close(&mut self)
        requires
            old(self).wf(),
        ensures
            final(self).wf(),
            final(self).capacity() == old(self).capacity(),
            final(self).in_use() == old(self).in_use(),
            !final(self).is_open(),
    {
        self.open = false;
    }

    /// How many permits are held, observably.
    pub fn held(&self) -> (r: u64)
        ensures
            r == self.in_use(),
    {
        self.in_use
    }

    /// The pool's capacity, observably.
    pub fn limit(&self) -> (r: u64)
        ensures
            r == self.capacity(),
    {
        self.capacity
    }
}

/// Law: however many items a sweep tries to launch, a well-formed pool
/// never grants more simultaneous permits than its capacity.
pub proof fn lemma_ceiling_never_exceeded(p: PermitPool)
    requires
        p.wf(),
    ensures
        p.in_use() <= p.capacity(),
{
}

} // verus!
