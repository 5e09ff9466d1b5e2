//! Routing-tree behaviour: registration, greedy resolution, path
//! splitting, and the dispatch handshake decision.

use srpc::path::split_path;
use srpc::router::Service;
use srpc::Router;
use srpc::Status;

fn payload(s: Option<&Service<u64>>) -> Option<u64> {
    match s {
        Some(Service::Static(h)) => Some(*h),
        Some(Service::Dynamic(h)) => Some(*h),
        None => None,
    }
}

#[test]
fn resolve_registered_single_segment() {
    let r = Router::new()
        .route("hello".to_string(), Service::Static(1u64))
        .route("echo".to_string(), Service::Dynamic(2u64));
    assert_eq!(payload(r.resolve_path("/hello")), Some(1));
    assert_eq!(payload(r.resolve_path("hello")), Some(1));
    assert_eq!(payload(r.resolve_path("/echo")), Some(2));
    assert!(matches!(r.resolve_path("/echo"), Some(Service::Dynamic(2))));
}

#[test]
fn unregistered_first_segment_fails() {
    let r = Router::new().route("hello".to_string(), Service::Static(1u64));
    assert!(r.resolve_path("/nope").is_none());
    assert!(r.resolve_path("/nope/deep/er").is_none());
    assert!(r.resolve_path("").is_none());
    assert!(r.resolve_path("/").is_none());
}

#[test]
fn nested_registration() {
    let sub = Router::new().route("b".to_string(), Service::Static(9u64));
    let r = Router::new().route_router("a".to_string(), sub);
    assert_eq!(payload(r.resolve_path("/a/b")), Some(9));
    assert!(r.resolve_path("/a").is_none());
    assert!(r.resolve_path("/a/c").is_none());
}

#[test]
fn greedy_match_ignores_trailing_segments() {
    let deeper = Router::new().route("inner".to_string(), Service::Static(4u64));
    let r = Router::new()
        .route("a".to_string(), Service::Static(5u64))
        .route_router("b".to_string(), deeper);
    assert_eq!(payload(r.resolve_path("/a")), Some(5));
    assert_eq!(payload(r.resolve_path("/a/extra")), Some(5));
    assert_eq!(payload(r.resolve_path("/a/extra/more")), Some(5));
    assert_eq!(payload(r.resolve_path("/b/inner")), Some(4));
}

#[test]
fn re_registration_overwrites() {
    let r = Router::new()
        .route("k".to_string(), Service::Static(1u64))
        .route("k".to_string(), Service::Static(2u64));
    assert_eq!(payload(r.resolve_path("/k")), Some(2));
}

#[test]
fn distinct_keys_no_cross_talk() {
    let mut r = Router::new();
    for i in 0u64..20 {
        r = r.route(format!("k{}", i), Service::Static(i));
    }
    for i in 0u64..20 {
        let path = format!("/k{}", i);
        assert_eq!(payload(r.resolve_path(&path)), Some(i));
    }
}

#[test]
fn separators_collapse() {
    let sub = Router::new().route("b".to_string(), Service::Static(9u64));
    let r = Router::new().route_router("a".to_string(), sub);
    assert_eq!(payload(r.resolve_path("//a///b//")), Some(9));
    assert_eq!(payload(r.resolve_path("a/b")), Some(9));
}

#[test]
fn dot_segments_are_opaque() {
    let r = Router::new()
        .route(".".to_string(), Service::Static(3u64))
        .route("..".to_string(), Service::Static(4u64));
    assert_eq!(payload(r.resolve_path("/.")), Some(3));
    assert_eq!(payload(r.resolve_path("/..")), Some(4));
}

#[test]
fn dispatch_reply_matches_resolution() {
    let r = Router::new().route("svc".to_string(), Service::Static(7u64));
    let (status, handler) = r.dispatch("/svc");
    assert_eq!(status, Status::Found);
    assert_eq!(payload(handler), Some(7));
    let (status, handler) = r.dispatch("/other");
    assert_eq!(status, Status::NotFound);
    assert!(handler.is_none());
}

#[test]
fn split_path_segments() {
    let empty: Vec<String> = Vec::new();
    assert_eq!(split_path("/hello"), vec!["hello".to_string()]);
    assert_eq!(split_path("hello"), vec!["hello".to_string()]);
    assert_eq!(split_path(""), empty);
    assert_eq!(split_path("/"), empty);
    assert_eq!(split_path("///"), empty);
    assert_eq!(
        split_path("/a//b/c/"),
        vec!["a".to_string(), "b".to_string(), "c".to_string()]
    );
    assert_eq!(
        split_path("/a/./b"),
        vec!["a".to_string(), ".".to_string(), "b".to_string()]
    );
}
