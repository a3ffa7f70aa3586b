//! Counters of the upstream connection pool: connections made, how many of
//! them reused a pooled connection, and failures.
use vstd::prelude::*;

verus! {

/// Connection counters.
pub struct PoolStats {
    pub total_connections: u64,
    pub reused_connections: u64,
    pub failed_connections: u64,
}

impl Default for PoolStats {
    fn default() -> (s: Self)
        ensures
            s.total_connections == 0,
            s.reused_connections == 0,
            s.failed_connections == 0,
    {
        PoolStats { total_connections: 0, reused_connections: 0, failed_connections: 0 }
    }
}

impl PoolStats {
    /// Counts one connection, and one reuse when it came from the pool.
    pub fn record_connection(&mut self, reused: bool)
        requires
            old(self).total_connections < u64::MAX,
            reused ==> old(self).reused_connections < u64::MAX,
        ensures
            final(self).total_connections == old(self).total_connections + 1,
            final(self).reused_connections == old(self).reused_connections + if reused { 1int } else { 0int },
            final(self).failed_connections == old(self).failed_connections,
    {
        self.total_connections = self.total_connections + 1;
        if reused {
            self.reused_connections = self.reused_connections + 1;
        }
    }

    /// Counts one failed connection.
    pub fn record_failure(&mut self)
        requires
            old(self).failed_connections < u64::MAX,
        ensures
            final(self).failed_connections == old(self).failed_connections + 1,
            final(self).total_connections == old(self).total_connections,
            final(self).reused_connections == old(self).reused_connections,
    {
        self.failed_connections = self.failed_connections + 1;
    }

    /// A copy of the counters.
    pub fn copy(&self) -> (r: Self)
        ensures
            r == *self,
    {
        PoolStats {
            total_connections: self.total_connections,
            reused_connections: self.reused_connections,
            failed_connections: self.failed_connections,
        }
    }
}

} // verus!
