//! Address and endpoint text: parsing, rendering, round trips, and the
//! provider address constructors.

use srpc::addr::Scheme;
use srpc::providers::{Tcp, Unix, WebSocket};
use srpc::Addr;
use srpc::Error;
use srpc::ServiceAddr;

#[test]
fn addr_parse_tcp() {
    let a = Addr::from_str("tcp@127.0.0.1:8080").unwrap();
    assert_eq!(a.scheme, Scheme::Tcp);
    assert_eq!(a.target, "127.0.0.1:8080");
    assert_eq!(a.text(), "tcp@127.0.0.1:8080");
}

#[test]
fn addr_parse_all_schemes() {
    assert_eq!(Addr::from_str("itcp@h:1").unwrap().scheme, Scheme::InsecureTcp);
    assert_eq!(Addr::from_str("unix@folder/sock.sock").unwrap().scheme, Scheme::Unix);
    assert_eq!(Addr::from_str("iunix@sock").unwrap().scheme, Scheme::InsecureUnix);
    assert_eq!(Addr::from_str("wss@example.org:443").unwrap().scheme, Scheme::Wss);
    assert_eq!(Addr::from_str("ws@example.org:80").unwrap().scheme, Scheme::InsecureWss);
}

#[test]
fn addr_parse_splits_on_last_at() {
    // Only what follows the last `@` is the target; the rest must name a
    // scheme, which `unix@a` does not.
    assert_eq!(Addr::from_str("unix@a@b"), Err(Error::InvalidInput));
}

#[test]
fn addr_parse_rejects_missing_at() {
    assert_eq!(Addr::from_str("tcp127.0.0.1"), Err(Error::InvalidInput));
}

#[test]
fn addr_parse_rejects_unknown_scheme() {
    assert_eq!(Addr::from_str("udp@127.0.0.1:1"), Err(Error::InvalidInput));
}

#[test]
fn addr_new_rejects_at_in_target() {
    assert_eq!(
        Addr::new(Scheme::Tcp, "a@b".to_string()),
        Err(Error::InvalidInput)
    );
}

#[test]
fn addr_round_trip() {
    for text in ["tcp@127.0.0.1:8080", "unix@/tmp/x.sock", "ws@host:80"] {
        let a = Addr::from_str(text).unwrap();
        assert_eq!(Addr::from_str(&a.text()).unwrap(), a);
    }
}

#[test]
fn provider_addr_constructors() {
    let t = Tcp::addr("127.0.0.1:8080".to_string()).unwrap();
    assert_eq!(t.scheme, Scheme::Tcp);
    let u = Unix::addr("/tmp/x.sock".to_string()).unwrap();
    assert_eq!(u.scheme, Scheme::Unix);
    let w = WebSocket::addr("example.org:443".to_string()).unwrap();
    assert_eq!(w.scheme, Scheme::Wss);
    assert!(Tcp::addr("bad@target".to_string()).is_err());
}

#[test]
fn service_addr_parse() {
    let sa = ServiceAddr::from_str("echo://tcp@127.0.0.1:8080").unwrap();
    assert_eq!(sa.id, "echo");
    assert_eq!(sa.addr.scheme, Scheme::Tcp);
    assert_eq!(sa.addr.target, "127.0.0.1:8080");
    assert_eq!(sa.to_text(), "echo://tcp@127.0.0.1:8080");
}

#[test]
fn service_addr_text_round_trip() {
    for text in [
        "echo://tcp@127.0.0.1:8080",
        "db://unix@/var/run/db.sock",
        "chat://wss@example.org:443",
        "://ws@h:1",
    ] {
        let sa = ServiceAddr::from_str(text).unwrap();
        assert_eq!(ServiceAddr::from_str(&sa.to_text()).unwrap(), sa);
    }
}

#[test]
fn service_addr_pair_round_trip() {
    let sa = ServiceAddr::from_str("echo://tcp@127.0.0.1:8080").unwrap();
    let (addr, id) = sa.clone().inner();
    let rebuilt = ServiceAddr { addr, id };
    assert_eq!(rebuilt, sa);
}

#[test]
fn service_addr_missing_separator_is_invalid_input() {
    assert_eq!(ServiceAddr::from_str("noscheme"), Err(Error::InvalidInput));
}

#[test]
fn service_addr_splits_on_last_separator() {
    // An id may hold the separator itself: the split takes the last one.
    let sa = ServiceAddr::from_str("a://b://tcp@h:1").unwrap();
    assert_eq!(sa.id, "a://b");
    assert_eq!(sa.addr.scheme, Scheme::Tcp);
    assert_eq!(sa.addr.target, "h:1");
}

#[test]
fn service_addr_bad_address_is_invalid_input() {
    assert_eq!(ServiceAddr::from_str("echo://nope"), Err(Error::InvalidInput));
    assert_eq!(ServiceAddr::from_str("echo://udp@h:1"), Err(Error::InvalidInput));
}

#[test]
fn service_addr_getters() {
    let sa = ServiceAddr::from_str("echo://tcp@127.0.0.1:8080").unwrap();
    assert_eq!(sa.addr(), &sa.addr);
    assert_eq!(sa.id(), "echo");
}

#[test]
fn service_addr_orders_by_addr_then_id() {
    let a = ServiceAddr::from_str("a://tcp@h:1").unwrap();
    let b = ServiceAddr::from_str("b://tcp@h:1").unwrap();
    assert!(a < b);
}
