//! The verified side of the connection pool: sizing options, round-robin
//! endpoint choice, and the clean-up a pooled connection gets when a new
//! holder acquires it. The pool machinery itself lives with the transport.
use vstd::prelude::*;
use crate::connection::{inv, Connection};

verus! {

/// Sizing of a connection pool.
#[derive(Debug, Clone, Copy, PartialEq, Eq)]
pub struct PoolOptions {
    pub max_size: u32,
    pub min_idle: Option<u32>,
}

impl Default for PoolOptions {
    /// At most thirty-two connections, eight kept idle.
    fn default() -> (r: PoolOptions)
        ensures
            r.max_size == 32,
            r.min_idle == Some(8u32),
    {
        PoolOptions { max_size: 32, min_idle: Some(8) }
    }
}

/// The endpoint index the `count`-th connection uses: new connections go
/// round-robin across the endpoint list.
pub fn pick_endpoint(count: u64, n: usize) -> (r: usize)
    requires
        n > 0,
    ensures
        r as int == count as int % n as int,
        r < n,
{
    (count % (n as u64)) as usize
}

/// Prepares a pooled connection for its next holder.
pub struct ConnectionCustomizer;

impl ConnectionCustomizer {
    /// Invalidate a connection on acquisition, so the new holder starts
    /// from a clean generation and no stale cursor can read through it.
    pub fn on_acquire(&self, connection: &mut Connection)
        requires
            old(connection)@.num_resets < u64::MAX,
            inv(old(connection)@),
        ensures
            inv(final(connection)@),
            final(connection)@.num_resets == old(connection)@.num_resets + 1,
            final(connection)@.stash == Seq::<(u64, Seq<u8>)>::empty(),
            final(connection)@.id == old(connection)@.id,
            final(connection)@.next_token == old(connection)@.next_token,
            final(connection)@.options == old(connection)@.options,
    {
        connection.invalidate();
    }
}

} // verus!
