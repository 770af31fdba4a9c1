//! A pool of connections to a database, or to anything else that is costly
//! to connect to.
//!
//! The pool keeps idle connections in the order in which they were given
//! back. Time is given to it in milliseconds, by the code that calls it.

pub mod plugin;

use std::collections::VecDeque;
use vstd::prelude::*;

verus! {

/// Why the pool has no connection to give.
#[derive(PartialEq, Eq, Structural, Copy, Clone, Debug)]
pub enum DatabaseError {
    PoolExhausted,
    ConnectionFailed,
    InvalidConnection,
}

/// A connection that a pool can keep.
pub trait Connection {
    /// Whether the connection can be used.
    spec fn valid(&self) -> bool;

    /// Whether the connection can be used.
    fn is_valid(&self) -> (b: bool)
        ensures
            b == self.valid(),
    ;

    /// Closes the connection.
    fn close(&mut self)
    ;
}

/// How many connections a pool keeps, and for how long.
#[derive(Clone, Copy, Debug)]
pub struct PoolConfig {
    pub max_size: usize,
    pub min_idle: usize,
    /// The milliseconds after which a connection is too old to be used.
    pub max_lifetime: u64,
    /// The milliseconds after which an idle connection is given up.
    pub idle_timeout: u64,
}

impl Default for PoolConfig {
    fn default() -> (c: PoolConfig)
        ensures
            c.max_size == 10,
            c.min_idle == 2,
            c.max_lifetime == 1800000,
            c.idle_timeout == 600000,
    {
        PoolConfig { max_size: 10, min_idle: 2, max_lifetime: 1800000, idle_timeout: 600000 }
    }
}

/// An idle connection, with the times at which it was made and last used.
pub struct PooledConnection<C: Connection> {
    pub connection: C,
    pub created_at: u64,
    pub last_used_at: u64,
}

/// A pool of connections of the type `C`, which are made by `F`.
#[verifier::reject_recursive_types(C)]
#[verifier::reject_recursive_types(F)]
pub struct ConnectionPool<C: Connection, F: Fn() -> Result<C, DatabaseError>> {
    /// The idle connections; the one that was given back first is at the
    /// front.
    pub connections: VecDeque<PooledConnection<C>>,
    pub config: PoolConfig,
    pub create_connection: F,
}

/// Whether `made` is a valid connection.
pub open spec fn is_valid_connection<C: Connection>(made: Result<C, DatabaseError>) -> bool {
    made matches Ok(c) && c.valid()
}

/// Whether the maker `maker` gives a valid connection whenever it is called.
pub open spec fn always_connects<C: Connection, F: Fn() -> Result<C, DatabaseError>>(
    maker: F,
) -> bool {
    forall|made: Result<C, DatabaseError>| #[trigger]
        maker.ensures((), made) ==> is_valid_connection(made)
}

/// Whether the maker `maker` gives no valid connection, whenever it is
/// called.
pub open spec fn never_connects<C: Connection, F: Fn() -> Result<C, DatabaseError>>(
    maker: F,
) -> bool {
    forall|made: Result<C, DatabaseError>| #[trigger]
        maker.ensures((), made) ==> !is_valid_connection(made)
}

impl PoolConfig {
    /// Whether a connection that was made at `created_at` and last used at
    /// `last_used_at` is given up at the time `now`: it is older than the
    /// longest lifetime, or it was idle for longer than the idle timeout.
    pub open spec fn expired(&self, created_at: u64, last_used_at: u64, now: u64) -> bool {
        now - created_at > self.max_lifetime || now - last_used_at > self.idle_timeout
    }
}

/// The number of connections at the front of `idle` that are given up at
/// the time `now`.
pub open spec fn expired_prefix<C: Connection>(
    config: PoolConfig,
    idle: Seq<PooledConnection<C>>,
    now: u64,
) -> nat
    decreases idle.len(),
{
    if idle.len() > 0 && config.expired(idle[0].created_at, idle[0].last_used_at, now) {
        1 + expired_prefix(config, idle.skip(1), now)
    } else {
        0
    }
}

/// What becomes of what the maker of connections returned, at the time
/// `now`: a valid connection is pooled with that time as the time it was
/// made and last used, an invalid one is refused, and a failure is passed
/// on.
pub open spec fn pooled_of<C: Connection>(made: Result<C, DatabaseError>, now: u64) -> Result<
    PooledConnection<C>,
    DatabaseError,
> {
    match made {
        Ok(c) => if c.valid() {
            Ok(PooledConnection { connection: c, created_at: now, last_used_at: now })
        } else {
            Err(DatabaseError::InvalidConnection)
        },
        Err(e) => Err(e),
    }
}

pub proof fn lemma_expired_prefix<C: Connection>(
    config: PoolConfig,
    idle: Seq<PooledConnection<C>>,
    now: u64,
)
    ensures
        expired_prefix(config, idle, now) <= idle.len(),
    decreases idle.len(),
{
    if idle.len() > 0 && config.expired(idle[0].created_at, idle[0].last_used_at, now) {
        lemma_expired_prefix(config, idle.skip(1), now);
    }
}

impl<C: Connection, F: Fn() -> Result<C, DatabaseError>> ConnectionPool<C, F> {
    /// Whether the pool can make connections: its maker can always be
    /// called.
    pub open spec fn wf(&self) -> bool {
        self.create_connection.requires(())
    }

    /// Whether the pool can keep one more idle connection.
    pub open spec fn has_room(&self) -> bool {
        self.connections@.len() < self.config.max_size
    }

    /// The idle connections that are left at the time `now`, after those at
    /// the front that are given up were closed.
    pub open spec fn live(&self, now: u64) -> Seq<PooledConnection<C>> {
        self.connections@.skip(expired_prefix(self.config, self.connections@, now) as int)
    }

    /// Whether an idle connection can be used at the time `now`: one is
    /// live then, and the first of them is valid.
    pub open spec fn usable(&self, now: u64) -> bool {
        self.live(now).len() > 0 && self.live(now)[0].connection.valid()
    }

    /// The idle connections that are left after `get` at the time `now`:
    /// those that are live then, without the first.
    pub open spec fn left(&self, now: u64) -> Seq<PooledConnection<C>> {
        if self.live(now).len() > 0 {
            self.live(now).skip(1)
        } else {
            self.live(now)
        }
    }

    /// What holds of a pool that was made at the time `now` from `config`
    /// and the maker `create_fn`: it keeps at most as many connections as
    /// the configuration wants idle. Each of them is valid, was made by the
    /// maker, and has `now` as the time it was made and last used. All that
    /// are wanted are there if the maker always gives a valid connection,
    /// and none is if it never gives one.
    pub open spec fn filled(&self, config: PoolConfig, create_fn: F, now: u64) -> bool {
        &&& self.wf()
        &&& self.config == config
        &&& self.create_connection == create_fn
        &&& self.connections@.len() <= config.min_idle
        &&& always_connects(create_fn) ==> self.connections@.len() == config.min_idle
        &&& never_connects(create_fn) ==> self.connections@.len() == 0
        &&& forall|i: int|
            0 <= i < self.connections@.len() ==> self.connections@[i] == (PooledConnection {
                connection: (#[trigger] self.connections@[i]).connection,
                created_at: now,
                last_used_at: now,
            }) && self.connections@[i].connection.valid() && create_fn.ensures(
                (),
                Ok(self.connections@[i].connection),
            )
    }

    /// What holds of `get` at the time `now`, where `self` is the pool
    /// before it, `after` the pool after it and `r` what it returned.
    ///
    /// The idle connections are those that were live, without the first.
    /// Where an idle connection can be used, it is returned. A connection
    /// that is returned otherwise was made by the maker, while the pool had
    /// room, and is valid. Without a usable idle connection, `get` succeeds
    /// if the pool has room and the maker always gives a valid connection,
    /// and fails if the pool has no room or the maker never gives one. The
    /// only error is that the pool is exhausted.
    pub open spec fn served(&self, after: Self, now: u64, r: Result<C, DatabaseError>) -> bool {
        &&& after.wf()
        &&& after.config == self.config
        &&& after.create_connection == self.create_connection
        &&& after.connections@ == self.left(now)
        &&& self.usable(now) ==> r == Ok::<_, DatabaseError>(self.live(now)[0].connection)
        &&& (r matches Ok(c) ==> c.valid())
        &&& (r matches Ok(c) ==> self.usable(now) || (self.left(now).len()
            < self.config.max_size && self.create_connection.ensures((), Ok(c))))
        &&& (r matches Err(e) ==> e == DatabaseError::PoolExhausted && !self.usable(now))
        &&& !self.usable(now) && self.left(now).len() >= self.config.max_size ==> r is Err
        &&& !self.usable(now) && self.left(now).len() < self.config.max_size && always_connects(
            self.create_connection,
        ) ==> r is Ok
        &&& !self.usable(now) && never_connects(self.create_connection) ==> r is Err
    }

    /// A pool that holds new connections: the maker is called as often as
    /// the configuration wants connections idle, and every valid connection
    /// that it gives is kept, in the order in which they were made.
    pub fn new(config: PoolConfig, create_fn: F, now: u64) -> (pool: Self)
        requires
            create_fn.requires(()),
        ensures
            pool.filled(config, create_fn, now),
    {
        let mut pool = ConnectionPool {
            connections: VecDeque::new(),
            config,
            create_connection: create_fn,
        };
        let mut i: usize = 0;
        while i < config.min_idle
            invariant
                i <= config.min_idle,
                pool.wf(),
                pool.config == config,
                pool.create_connection == create_fn,
                pool.connections@.len() <= i,
                always_connects(create_fn) ==> pool.connections@.len() == i,
                never_connects(create_fn) ==> pool.connections@.len() == 0,
                forall|k: int|
                    0 <= k < pool.connections@.len() ==> pool.connections@[k] == (
                        PooledConnection {
                            connection: (#[trigger] pool.connections@[k]).connection,
                            created_at: now,
                            last_used_at: now,
                        }
                    ) && pool.connections@[k].connection.valid() && create_fn.ensures(
                        (),
                        Ok(pool.connections@[k].connection),
                    ),
            decreases config.min_idle - i,
        {
            match pool.create_new_connection(now) {
                Ok(pooled) => {
                    pool.connections.push_back(pooled);
                },
                Err(_) => {},
            }
            i = i + 1;
        }
        pool
    }

    /// What becomes of what the maker returned, at the time `now`: a valid
    /// connection is ready for the pool, an invalid one is refused, and a
    /// failure is passed on.
    pub fn pooled(made: Result<C, DatabaseError>, now: u64) -> (r: Result<
        PooledConnection<C>,
        DatabaseError,
    >)
        ensures
            r == pooled_of(made, now),
    {
        match made {
            Ok(connection) => {
                if !connection.is_valid() {
                    return Err(DatabaseError::InvalidConnection);
                }
                Ok(PooledConnection { connection, created_at: now, last_used_at: now })
            },
            Err(e) => Err(e),
        }
    }

    /// Calls the maker once, and returns what `pooled_of` makes of what it
    /// returned: a new connection, if the maker made one and it is valid.
    pub fn create_new_connection(&self, now: u64) -> (r: Result<PooledConnection<C>, DatabaseError>)
        requires
            self.wf(),
        ensures
            exists|made: Result<C, DatabaseError>|
                #[trigger] self.create_connection.ensures((), made) && r == pooled_of(made, now),
            r matches Ok(pooled) ==> pooled.connection.valid() && pooled.created_at == now
                && pooled.last_used_at == now && self.create_connection.ensures(
                (),
                Ok(pooled.connection),
            ),
            always_connects(self.create_connection) ==> r is Ok,
            never_connects(self.create_connection) ==> r is Err,
    {
        let made = (self.create_connection)();
        let ghost returned = made;
        let r = Self::pooled(made, now);
        assert(self.create_connection.ensures((), returned) && r == pooled_of(returned, now));
        r
    }

    /// A connection to use, at the time `now`.
    ///
    /// The idle connections at the front that are given up are closed
    /// first. The next idle connection is returned if it is valid, and
    /// closed if it is not. Without one, the maker is called, as long as
    /// fewer connections are idle than the pool may keep, and what it made
    /// is returned if it is a valid connection. Where none of this gives a
    /// connection, the pool is exhausted.
    pub fn get(&mut self, now: u64) -> (r: Result<C, DatabaseError>)
        requires
            old(self).wf(),
        ensures
            old(self).served(*final(self), now, r),
    {
        let ghost start = self.connections@;
        let ghost config = self.config;
        proof {
            assert(start.skip(0) =~= start);
        }
        let ghost mut dropped: int = 0;
        while self.connections.len() > 0 && ((now > self.connections[0].created_at && now
            - self.connections[0].created_at > self.config.max_lifetime) || (now
            > self.connections[0].last_used_at && now - self.connections[0].last_used_at
            > self.config.idle_timeout))
            invariant
                self.wf(),
                self.config == config,
                self.create_connection == old(self).create_connection,
                0 <= dropped <= start.len(),
                self.connections@ == start.skip(dropped),
                expired_prefix(config, start, now) == dropped + expired_prefix(
                    config,
                    self.connections@,
                    now,
                ),
            decreases self.connections@.len(),
        {
            assert(self.connections@[0] == start[dropped]);
            let ghost before = self.connections@;
            match self.connections.pop_front() {
                Some(expired) => {
                    let mut expired = expired;
                    expired.connection.close();
                },
                None => {},
            }
            proof {
                assert(self.connections@ =~= before.skip(1));
                assert(before.skip(1) =~= start.skip(dropped + 1));
                dropped = dropped + 1;
            }
        }
        proof {
            if self.connections@.len() > 0 {
                assert(self.connections@[0] == start[dropped]);
            }
            assert(self.connections@ == old(self).live(now));
        }
        let ghost live = self.connections@;
        match self.connections.pop_front() {
            Some(pooled) => {
                proof {
                    assert(self.connections@ =~= live.skip(1));
                }
                let mut pooled = pooled;
                if pooled.connection.is_valid() {
                    return Ok(pooled.connection);
                }
                pooled.connection.close();
            },
            None => {},
        }
        if self.connections.len() < self.config.max_size {
            match self.create_new_connection(now) {
                Ok(pooled) => {
                    return Ok(pooled.connection);
                },
                Err(_) => {},
            }
        }
        Err(DatabaseError::PoolExhausted)
    }

    /// Gives `connection` back at the time `now`. It is kept if the pool
    /// has room and the connection is valid, and closed otherwise.
    pub fn release(&mut self, connection: C, now: u64)
        ensures
            final(self).config == old(self).config,
            final(self).create_connection == old(self).create_connection,
            old(self).has_room() && connection.valid() ==> final(self).connections@
                == old(self).connections@.push(
                PooledConnection { connection, created_at: now, last_used_at: now },
            ),
            !(old(self).has_room() && connection.valid()) ==> final(self).connections@
                == old(self).connections@,
    {
        if self.connections.len() < self.config.max_size && connection.is_valid() {
            self.connections.push_back(
                PooledConnection { connection, created_at: now, last_used_at: now },
            );
        } else {
            let mut connection = connection;
            connection.close();
        }
    }
}

} // verus!
