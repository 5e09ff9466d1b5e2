//! The dispatcher's error kinds. Parsing a malformed address is an invalid
//! input; a path or service id that resolves to nothing is not found.
//! Channel I/O failures belong to the transport layer and never arise in
//! this library's own logic.

use vstd::prelude::*;

verus! {

/// Why a dispatcher operation failed.
#[derive(Clone, Copy, Debug, PartialEq, Eq, Structural)]
pub enum Error {
    /// Malformed input text, such as an address without its separator.
    InvalidInput,
    /// Nothing is registered under the requested path or service id.
    NotFound,
}

} // verus!
