//! The transport providers the dispatcher is served over: encrypted stream
//! sockets, local sockets and web-socket tunnels. Binding a listener and
//! dialing a peer are the transport layer's work; here each provider names
//! its address scheme, so that endpoints for it are built and checked in
//! one place.

use vstd::prelude::*;

use crate::addr::{Addr, Scheme};
use crate::error::Error;

verus! {

/// The encrypted stream-socket provider.
pub struct Tcp;

/// The encrypted local-socket provider.
pub struct Unix;

/// The encrypted web-socket provider.
pub struct WebSocket;

impl Tcp {
    /// An address this provider can dial or bind: `tcp@target`.
    pub fn addr(target: String) -> (r: Result<Addr, Error>)
        ensures
            match r {
                Ok(a) => a.scheme == Scheme::Tcp && a.target@ == target@ && a.wf(),
                Err(e) => e == Error::InvalidInput && exists|j: int|
                    0 <= j < target@.len() && target@[j] == '@',
            },
    {
        Addr::new(Scheme::Tcp, target)
    }
}

impl Unix {
    /// An address this provider can dial or bind: `unix@target`.
    pub fn addr(target: String) -> (r: Result<Addr, Error>)
        ensures
            match r {
                Ok(a) => a.scheme == Scheme::Unix && a.target@ == target@ && a.wf(),
                Err(e) => e == Error::InvalidInput && exists|j: int|
                    0 <= j < target@.len() && target@[j] == '@',
            },
    {
        Addr::new(Scheme::Unix, target)
    }
}

impl WebSocket {
    /// An address this provider can dial or bind: `wss@target`.
    pub fn addr(target: String) -> (r: Result<Addr, Error>)
        ensures
            match r {
                Ok(a) => a.scheme == Scheme::Wss && a.target@ == target@ && a.wf(),
                Err(e) => e == Error::InvalidInput && exists|j: int|
                    0 <= j < target@.len() && target@[j] == '@',
            },
    {
        Addr::new(Scheme::Wss, target)
    }
}

} // verus!
