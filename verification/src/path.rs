//! Actor addresses.

use vstd::prelude::*;

verus! {

/// A transport endpoint: the plain fields of an IPv4 or IPv6 socket address.
#[derive(Clone, Copy, Debug, PartialEq, Eq, Structural)]
#[allow(inconsistent_fields)]
pub enum HostAddr {
    V4 { ip: u32, port: u16 },
    V6 { ip: u128, port: u16, flowinfo: u32, scope_id: u32 },
}

/// Where an actor lives: in this process, or in the process listening at `addr`.
#[derive(Clone, Copy, Debug, PartialEq, Eq, Structural)]
pub enum ActorPath {
    Local { id: usize },
    Remote { addr: HostAddr, id: usize },
}

impl ActorPath {
    /// The actor's id within the process that hosts it.
    pub open spec fn spec_id(self) -> usize {
        match self {
            ActorPath::Local { id } => id,
            ActorPath::Remote { id, .. } => id,
        }
    }

    /// The actor's id within the process that hosts it.
    pub fn id(&self) -> (id: usize)
        ensures
            id == self.spec_id(),
    {
        match self {
            ActorPath::Local { id } => *id,
            ActorPath::Remote { id, .. } => *id,
        }
    }
}

} // verus!
