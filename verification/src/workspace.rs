use vstd::prelude::*;

verus! {

/// A bump allocator over a fixed amount of memory, as used by Varnish to hold
/// per-task data such as header lines.
///
/// Only the accounting is modelled: an allocation of `n` bytes succeeds when
/// at least `n` bytes are still free, and then takes exactly `n` bytes.
#[derive(Debug)]
pub struct Workspace {
    capacity: usize,
    used: usize,
}

impl Workspace {
    /// Total size of the workspace.
    pub closed spec fn spec_capacity(&self) -> nat {
        self.capacity as nat
    }

    /// Bytes still free.
    pub closed spec fn spec_free(&self) -> nat {
        (self.capacity - self.used) as nat
    }

    /// The workspace never hands out more than its capacity.
    pub closed spec fn wf(&self) -> bool {
        self.used <= self.capacity
    }

    /// A fresh, empty workspace of `capacity` bytes.
    pub fn new(capacity: usize) -> (ws: Workspace)
        ensures
            ws.wf(),
            ws.spec_capacity() == capacity,
            ws.spec_free() == capacity,
    {
        Workspace { capacity, used: 0 }
    }

    /// Number of bytes still free.
    pub fn free(&self) -> (n: usize)
        requires
            self.wf(),
        ensures
            n == self.spec_free(),
    {
        self.capacity - self.used
    }

    /// Total size of the workspace.
    pub fn capacity(&self) -> (n: usize)
        ensures
            n == self.spec_capacity(),
    {
        self.capacity
    }

    /// Takes `n` bytes if that many are free; returns whether it did.
    pub fn reserve(&mut self, n: usize) -> (ok: bool)
        requires
            old(self).wf(),
        ensures
            final(self).wf(),
            ok == (n <= old(self).spec_free()),
            final(self).spec_capacity() == old(self).spec_capacity(),
            ok ==> final(self).spec_free() == old(self).spec_free() - n,
            !ok ==> final(self).spec_free() == old(self).spec_free(),
    {
        if n <= self.capacity - self.used {
            self.used = self.used + n;
            true
        } else {
            false
        }
    }
}

} // verus!
