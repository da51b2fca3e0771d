//! The connection manager: the owner of the handles to the active storage
//! engine, which lends them out one operation at a time.

use vstd::prelude::*;
use vstd::string::StringExecFns;

verus! {

/// The owner of a fixed number of handles. A handle that is lent out is
/// owned by the borrower until it is handed back, so no two operations
/// hold one handle at a time. With one handle the manager serialises every
/// operation; with more it is a pool.
pub struct ConnectionManager<H> {
    idle: Vec<H>,
    capacity: usize,
}

impl<H> ConnectionManager<H> {
    #[verifier::type_invariant]
    closed spec fn within_capacity(self) -> bool {
        self.idle@.len() <= self.capacity
    }

    /// The handles that are not lent out; the last is lent next.
    pub closed spec fn idle(&self) -> Seq<H> {
        self.idle@
    }

    /// The number of handles that the manager owns, lent out or not.
    pub closed spec fn capacity(&self) -> nat {
        self.capacity as nat
    }

    /// A manager of one handle, which at most one operation holds at a
    /// time.
    pub fn exclusive(handle: H) -> (r: Self)
        ensures
            r.idle() == seq![handle],
            r.capacity() == 1,
    {
        let mut idle: Vec<H> = Vec::new();
        idle.push(handle);
        ConnectionManager { idle, capacity: 1 }
    }

    /// A manager of a pool of handles.
    pub fn pooled(handles: Vec<H>) -> (r: Self)
        ensures
            r.idle() == handles@,
            r.capacity() == handles@.len(),
    {
        let capacity = handles.len();
        ConnectionManager { idle: handles, capacity }
    }

    /// The number of handles that are not lent out.
    pub fn available(&self) -> (r: usize)
        ensures
            r == self.idle().len(),
            r <= self.capacity(),
    {
        proof {
            use_type_invariant(self);
        }
        self.idle.len()
    }

    /// The number of handles that are lent out.
    pub fn lent(&self) -> (r: usize)
        ensures
            r == self.capacity() - self.idle().len(),
    {
        proof {
            use_type_invariant(self);
        }
        self.capacity - self.idle.len()
    }

    /// Lends out a handle, if one is idle. The caller waits and asks again
    /// where none is.
    pub fn acquire(&mut self) -> (r: Option<H>)
        ensures
            final(self).capacity() == old(self).capacity(),
            old(self).idle().len() <= old(self).capacity(),
            match r {
                Some(handle) => old(self).idle().len() > 0 && handle == old(self).idle().last()
                    && final(self).idle() == old(self).idle().drop_last(),
                None => old(self).idle().len() == 0 && final(self).idle() == old(self).idle(),
            },
    {
        proof {
            use_type_invariant(&*self);
        }
        let mut idle: Vec<H> = Vec::new();
        core::mem::swap(&mut self.idle, &mut idle);
        let handle = idle.pop();
        core::mem::swap(&mut self.idle, &mut idle);
        handle
    }

    /// Takes a handle back. A handle that the manager has no room for is
    /// not one of its own: it is returned to the caller.
    pub fn release(&mut self, handle: H) -> (r: Option<H>)
        ensures
            final(self).capacity() == old(self).capacity(),
            old(self).idle().len() < old(self).capacity() ==> r is None
                && final(self).idle() == old(self).idle().push(handle),
            old(self).idle().len() >= old(self).capacity() ==> r == Some(handle)
                && final(self).idle() == old(self).idle(),
    {
        proof {
            use_type_invariant(&*self);
        }
        if self.idle.len() < self.capacity {
            let mut idle: Vec<H> = Vec::new();
            core::mem::swap(&mut self.idle, &mut idle);
            idle.push(handle);
            core::mem::swap(&mut self.idle, &mut idle);
            None
        } else {
            Some(handle)
        }
    }
}

/// The number of records that a graph store hands over at a time.
pub const GRAPH_FETCH_SIZE: usize = 500;

/// The number of connections that the client of a graph store keeps.
pub const GRAPH_MAX_CONNECTIONS: usize = 10;

/// How the client of a graph store is set up.
#[derive(Debug, PartialEq, Eq)]
pub struct GraphSettings {
    pub uri: String,
    pub user: String,
    pub password: String,
    pub database: String,
    pub fetch_size: usize,
    pub max_connections: usize,
}

/// The settings for a graph store at the given address: the database
/// `neo4j`, a fetch size of 500 and at most 10 connections.
pub fn graph_settings(uri: &str, user: &str, password: &str) -> (r: GraphSettings)
    ensures
        r.uri@ == uri@,
        r.user@ == user@,
        r.password@ == password@,
        r.database@ == "neo4j"@,
        r.fetch_size == GRAPH_FETCH_SIZE,
        r.max_connections == GRAPH_MAX_CONNECTIONS,
{
    GraphSettings {
        uri: String::from_str(uri),
        user: String::from_str(user),
        password: String::from_str(password),
        database: String::from_str("neo4j"),
        fetch_size: GRAPH_FETCH_SIZE,
        max_connections: GRAPH_MAX_CONNECTIONS,
    }
}

} // verus!
