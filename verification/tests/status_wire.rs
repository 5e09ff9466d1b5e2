//! The one-byte status handshake on the wire.

use srpc::Error;
use srpc::Status;

#[test]
fn status_encodes_ordinals() {
    assert_eq!(Status::Found.to_byte(), 0);
    assert_eq!(Status::NotFound.to_byte(), 1);
}

#[test]
fn status_decodes_ordinals() {
    assert_eq!(Status::from_byte(0), Some(Status::Found));
    assert_eq!(Status::from_byte(1), Some(Status::NotFound));
    assert_eq!(Status::from_byte(2), None);
    assert_eq!(Status::from_byte(255), None);
}

#[test]
fn status_byte_round_trip() {
    for s in [Status::Found, Status::NotFound] {
        assert_eq!(Status::from_byte(s.to_byte()), Some(s));
    }
}

#[test]
fn status_client_interpretation() {
    assert_eq!(Status::Found.into_result(), Ok(()));
    assert_eq!(Status::NotFound.into_result(), Err(Error::NotFound));
    assert!(Status::Found.is_found());
    assert!(!Status::NotFound.is_found());
}
