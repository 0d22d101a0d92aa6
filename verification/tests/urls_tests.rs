use sneaker_core::urls::{
    get_base_url, nav_from_query, navigate_target, new_window_target, route_localhost_request,
    LocalhostKind,
};

const HASH: &str = "0123456789abcdef0123456789abcdef0123456789abcdef0123456789abcdef";

#[test]
fn base_url() {
    assert_eq!(get_base_url(), "sneaker://home/");
}

#[test]
fn navigation_notices() {
    let n = nav_from_query(Some("url=sneaker%3A%2F%2Fhome%2Fa&action=replace"));
    assert_eq!((n.url.as_str(), n.action.as_str()), ("sneaker://home/a", "replace"));
    let n = nav_from_query(Some("url=a&url=b+c&other=1"));
    assert_eq!((n.url.as_str(), n.action.as_str()), ("b c", "push"));
    let n = nav_from_query(None);
    assert_eq!((n.url.as_str(), n.action.as_str()), ("", "push"));
    let n = nav_from_query(Some(""));
    assert_eq!((n.url.as_str(), n.action.as_str()), ("", "push"));
}

#[test]
fn content_targets() {
    let t = navigate_target("/feed?x=1", false).unwrap();
    assert_eq!(t.text, "sneaker://home/feed?x=1");
    let t = navigate_target("feed", false).unwrap();
    assert_eq!(t.text, "sneaker://home/feed");
    let t = navigate_target(&format!("sneaker://{HASH}/a"), false).unwrap();
    assert_eq!(t.host.as_deref(), Some(HASH));
    let t = navigate_target("/feed?x=1", true).unwrap();
    assert_eq!(t.text, "http://home.localhost/feed?x=1");
    let t = navigate_target(&format!("sneaker://{HASH}/a/b"), true).unwrap();
    assert_eq!(t.text, format!("http://{HASH}.localhost/a/b"));
    let e = navigate_target("sneaker://[bad", false).unwrap_err();
    assert!(e.starts_with("invalid URL: "), "{e}");
}

#[test]
fn new_window_targets() {
    assert_eq!(new_window_target("sneaker://home/x", false), None);
    assert_eq!(new_window_target("sneaker://home/x?y=1", true).as_deref(), Some("http://home.localhost/x?y=1"));
    assert_eq!(new_window_target("https://example.com/", true), None);
}

#[test]
fn localhost_routes() {
    let r = route_localhost_request("http://__nav__.localhost/?url=a&action=pop");
    assert_eq!(r.kind, LocalhostKind::Nav);
    assert_eq!(r.query.as_deref(), Some("url=a&action=pop"));
    assert_eq!(route_localhost_request("http://ipc.localhost/x").kind, LocalhostKind::Ignore);
    assert_eq!(route_localhost_request("https://home.localhost/").kind, LocalhostKind::Ignore);
    assert_eq!(route_localhost_request("http://example.com/").kind, LocalhostKind::Ignore);
    assert_eq!(route_localhost_request("not a url").kind, LocalhostKind::Ignore);
    assert_eq!(route_localhost_request("http://home.localhost/__progress__").kind, LocalhostKind::ProgressPage);
    assert_eq!(route_localhost_request("http://sneaker.localhost/__progress_api__").kind, LocalhostKind::ProgressApi);
    let r = route_localhost_request("http://home.localhost/images/a.bin");
    assert_eq!((r.kind, r.path.as_str()), (LocalhostKind::Asset, "images/a.bin"));
    let r = route_localhost_request("http://home.localhost/video.mp4");
    assert_eq!(r.kind, LocalhostKind::Frontpage);
    let r = route_localhost_request(&format!("http://{HASH}.localhost/a/"));
    assert_eq!((r.kind, r.host.as_str(), r.path.as_str()), (LocalhostKind::Subspace, HASH, "/a/"));
    assert_eq!(route_localhost_request("http://other.localhost/").kind, LocalhostKind::Ignore);
}
