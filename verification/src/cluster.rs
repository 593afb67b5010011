//! Database-cluster access policy.
//!
//! The backing graph database is a cluster: one write-capable primary
//! connection and an ordered set of read-only secondaries.  All writes go
//! to the primary; reads go to the first secondary.  The handle is
//! established lazily and installed once: when two initializers race, the
//! first installation wins and the loser's fresh handle is handed back to
//! be closed by its creator.  The connections themselves live outside;
//! this module holds the selection and installation decisions.

use vstd::prelude::*;

verus! {

/// The shape of a connected cluster: how many primaries and secondaries
/// were connected.
pub struct ClusterLayout {
    pub primary_count: usize,
    pub secondary_count: usize,
}

impl ClusterLayout {
    /// A usable cluster has at least one node of each role.
    pub open spec fn wf(self) -> bool {
        self.primary_count >= 1 && self.secondary_count >= 1
    }

    /// The index of the connection every write uses: the single primary.
    pub fn write_target(&self) -> (i: usize)
        requires
            self.wf(),
        ensures
            i == 0,
            i < self.primary_count,
    {
        0
    }

    /// The index of the connection every read uses: always the first
    /// secondary.  The layout leaves room for more secondaries, but no
    /// load balancing across them is promised.
    pub fn read_target(&self) -> (i: usize)
        requires
            self.wf(),
        ensures
            i == 0,
            i < self.secondary_count,
    {
        0
    }
}

/// The process-wide slot holding the cluster handle, installed at most
/// once.
pub struct ClusterSlot {
    pub installed: Option<ClusterLayout>,
}

impl ClusterSlot {
    /// An empty slot.
    pub fn new() -> (r: ClusterSlot)
        ensures
            r.installed is None,
    {
        ClusterSlot { installed: None }
    }

    /// Installs a freshly connected layout unless one is already in
    /// place.  Returns the fresh layout back to the caller when it lost
    /// the race, so the caller can close its connections instead of
    /// leaking them.
    pub fn install(&mut self, fresh: ClusterLayout) -> (loser: Option<ClusterLayout>)
        ensures
            old(self).installed is None ==> final(self).installed == Some(fresh)
                && loser is None,
            old(self).installed is Some ==> *final(self) == *old(self) && loser == Some(
                fresh,
            ),
    {
        match self.installed {
            None => {
                self.installed = Some(fresh);
                None
            },
            Some(_) => Some(fresh),
        }
    }
}

/// The administrative cluster reset: deletes every stored record and
/// reinitializes the topology to one primary and two secondaries.
/// Destructive and irreversible; reached only through the administrative
/// `reset` command.
pub fn reset_database_and_set_topology(store: &mut crate::store::RecordStore) -> (r:
    ClusterLayout)
    ensures
        final(store).model() == Seq::<crate::store::RecordModel>::empty(),
        final(store).wf(),
        r.primary_count == 1,
        r.secondary_count == 2,
        r.wf(),
{
    store.reset();
    ClusterLayout { primary_count: 1, secondary_count: 2 }
}

} // verus!
