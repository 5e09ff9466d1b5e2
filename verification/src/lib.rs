//! A minimal in-process RPC dispatcher: a routing tree maps slash-delimited
//! paths to registered handlers, a two-value status handshake reports the
//! outcome to the remote peer, and `ServiceAddr` names a dialable endpoint
//! as `id://address`.

pub mod addr;
pub mod error;
pub mod path;
pub mod providers;
pub mod router;
pub mod service_addr;
pub mod status;

pub use addr::Addr;
pub use error::Error;
pub use router::Router;
pub use service_addr::ServiceAddr;
pub use status::Status;
