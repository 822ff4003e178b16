//! A bounded sliding window of position snapshots: a strict FIFO of
//! capacity `K`. A push at capacity evicts the oldest entry first, so the
//! buffer always holds at most `K` snapshots — exactly the most recent
//! ones, oldest first.

use vstd::prelude::*;
use crate::errors::ConfigurationError;
use crate::pos::Pos;

verus! {

/// What one push does to the window's contents.
pub open spec fn spec_push(view: Seq<Seq<Pos>>, cap: int, snap: Seq<Pos>) -> Seq<Seq<Pos>> {
    if view.len() < cap {
        view.push(snap)
    } else {
        view.skip(1).push(snap)
    }
}

/// The bounded FIFO of population snapshots.
pub struct HistoryBuffer {
    entries: Vec<Vec<Pos>>,
    cap: usize,
}

impl HistoryBuffer {
    /// The window's contents, oldest first.
    pub closed spec fn snapshots(&self) -> Seq<Seq<Pos>> {
        Seq::new(self.entries@.len(), |i: int| self.entries@[i]@)
    }

    /// The configured capacity.
    pub closed spec fn spec_cap(&self) -> int {
        self.cap as int
    }

    /// A usable window: positive capacity, never overfull.
    pub open spec fn wf(&self) -> bool {
        &&& self.spec_cap() >= 1
        &&& self.snapshots().len() <= self.spec_cap()
    }

    /// Build a window, rejecting exactly a zero capacity.
    pub fn new(cap: usize) -> (r: Result<HistoryBuffer, ConfigurationError>)
        ensures
            r is Ok <==> cap >= 1,
            r matches Ok(h) ==> h.wf() && h.spec_cap() == cap && h.snapshots() =~= Seq::<
                Seq<Pos>,
            >::empty(),
            r matches Err(e) ==> e == ConfigurationError::NonPositiveCapacity,
    {
        if cap >= 1 {
            Ok(HistoryBuffer { entries: Vec::new(), cap })
        } else {
            Err(ConfigurationError::NonPositiveCapacity)
        }
    }

    /// The number of snapshots held; never above the capacity.
    pub fn len(&self) -> (r: usize)
        requires
            self.wf(),
        ensures
            r == self.snapshots().len(),
            r <= self.spec_cap(),
    {
        self.entries.len()
    }

    /// Append a snapshot at the new end, evicting the oldest entry first
    /// when the window is full.
    pub fn push(&mut self, snap: Vec<Pos>)
        requires
            old(self).wf(),
        ensures
            final(self).wf(),
            final(self).spec_cap() == old(self).spec_cap(),
            final(self).snapshots() == spec_push(old(self).snapshots(), old(self).spec_cap(),
                snap@),
            final(self).snapshots().len() <= old(self).snapshots().len() + 1,
    {
        if self.entries.len() >= self.cap {
            let _evicted = self.entries.remove(0);
            proof {
                assert(self.snapshots() =~= old(self).snapshots().skip(1));
            }
        }
        self.entries.push(snap);
        proof {
            assert(self.snapshots() =~= spec_push(old(self).snapshots(), old(self).spec_cap(),
                snap@));
        }
    }

    /// Forget everything; the capacity and the agents are untouched.
    pub fn clear(&mut self)
        requires
            old(self).wf(),
        ensures
            final(self).wf(),
            final(self).spec_cap() == old(self).spec_cap(),
            final(self).snapshots() =~= Seq::<Seq<Pos>>::empty(),
    {
        self.entries.clear();
    }

    /// The most recent snapshot, if any.
    pub fn newest(&self) -> (r: Option<&Vec<Pos>>)
        requires
            self.wf(),
        ensures
            self.snapshots().len() == 0 <==> r is None,
            r matches Some(v) ==> v@ == self.snapshots().last(),
    {
        let n = self.entries.len();
        if n == 0 {
            None
        } else {
            Some(&self.entries[n - 1])
        }
    }

    /// The snapshot at a given position, oldest first.
    pub fn get(&self, i: usize) -> (r: &Vec<Pos>)
        requires
            self.wf(),
            i < self.snapshots().len(),
        ensures
            r@ == self.snapshots()[i as int],
    {
        &self.entries[i]
    }
}

} // verus!
