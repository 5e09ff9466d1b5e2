//! The two-value handshake reply sent to the remote peer once a requested
//! path has been resolved: `Found` when the channel was handed to a handler,
//! `NotFound` when nothing was registered for the path. On the wire it is a
//! single byte, ordinal 0 for `Found` and 1 for `NotFound`.

use vstd::prelude::*;

verus! {

/// Outcome of one path resolution, as reported to the remote peer.
#[derive(Clone, Copy, Debug, PartialEq, Eq, Structural)]
pub enum Status {
    Found,
    NotFound,
}

impl Status {
    /// The wire ordinal of this status.
    pub open spec fn spec_byte(self) -> u8 {
        match self {
            Status::Found => 0,
            Status::NotFound => 1,
        }
    }

    /// Encode the status as its single wire byte.
    pub fn to_byte(self) -> (b: u8)
        ensures
            b == self.spec_byte(),
    {
        match self {
            Status::Found => 0,
            Status::NotFound => 1,
        }
    }

    /// Decode a wire byte; any byte above the last ordinal is rejected.
    pub fn from_byte(b: u8) -> (r: Option<Status>)
        ensures
            match r {
                Some(s) => s.spec_byte() == b,
                None => b > 1,
            },
    {
        if b == 0 {
            Some(Status::Found)
        } else if b == 1 {
            Some(Status::NotFound)
        } else {
            None
        }
    }

    /// Whether this reply lets a connecting client keep the channel.
    pub fn is_found(self) -> (r: bool)
        ensures
            r == (self is Found),
    {
        match self {
            Status::Found => true,
            Status::NotFound => false,
        }
    }

    /// How a connecting client reads the reply: on `Found` the channel is
    /// its to keep, on `NotFound` the requested id has no handler.
    pub fn into_result(self) -> (r: Result<(), crate::error::Error>)
        ensures
            r is Ok <==> self is Found,
            r is Err ==> r->Err_0 == crate::error::Error::NotFound,
    {
        match self {
            Status::Found => Ok(()),
            Status::NotFound => Err(crate::error::Error::NotFound),
        }
    }
}

/// The wire byte is faithful: encoding a status and decoding the byte gives
/// the same status back, and the two ordinals are distinct.
pub proof fn lemma_status_byte_round_trip(s: Status)
    ensures
        s.spec_byte() <= 1,
        forall|t: Status| t.spec_byte() == s.spec_byte() ==> t == s,
{
}

} // verus!
