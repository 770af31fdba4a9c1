//! The connection pool as a plugin of an application.

use crate::database::{Connection, ConnectionPool, DatabaseError, PoolConfig, PooledConnection};
use vstd::prelude::*;

verus! {

/// A pool of connections that is registered as a plugin.
#[verifier::reject_recursive_types(C)]
#[verifier::reject_recursive_types(F)]
pub struct DatabasePlugin<C: Connection, F: Fn() -> Result<C, DatabaseError>> {
    pub pool: ConnectionPool<C, F>,
}

impl<C: Connection, F: Fn() -> Result<C, DatabaseError>> DatabasePlugin<C, F> {
    /// A plugin with a new pool.
    pub fn new(config: PoolConfig, create_fn: F, now: u64) -> (p: Self)
        requires
            create_fn.requires(()),
        ensures
            p.pool.filled(config, create_fn, now),
    {
        DatabasePlugin { pool: ConnectionPool::new(config, create_fn, now) }
    }

    /// A connection to use, at the time `now`.
    pub fn get_connection(&mut self, now: u64) -> (r: Result<C, DatabaseError>)
        requires
            old(self).pool.wf(),
        ensures
            old(self).pool.served(final(self).pool, now, r),
    {
        self.pool.get(now)
    }

    /// Gives `connection` back at the time `now`.
    pub fn release_connection(&mut self, connection: C, now: u64)
        ensures
            final(self).pool.config == old(self).pool.config,
            old(self).pool.has_room() && connection.valid() ==> final(self).pool.connections@
                == old(self).pool.connections@.push(
                PooledConnection { connection, created_at: now, last_used_at: now },
            ),
            !(old(self).pool.has_room() && connection.valid()) ==> final(self).pool.connections@
                == old(self).pool.connections@,
    {
        self.pool.release(connection, now);
    }
}

} // verus!
