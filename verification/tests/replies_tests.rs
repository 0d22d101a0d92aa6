use sneaker_core::progress::ImportState;
use sneaker_core::replies::{
    frontpage_asset_reply, frontpage_reply, invalid_host_reply, localhost_asset_reply,
    localhost_frontpage_reply, localhost_lookup_step, localhost_nav_reply, localhost_not_found,
    localhost_progress_api_reply, localhost_progress_page_reply, nav_reply, progress_api_reply,
    progress_page_reply, subspace_lookup_step, subspace_not_found_reply, FrontpageReply,
    LocalLookupStep, LookupStep, StoreReply,
};
use sneaker_core::rewrite::UrlStyle;

fn pairs(h: &[(String, String)]) -> Vec<(&str, &str)> {
    h.iter().map(|(a, b)| (a.as_str(), b.as_str())).collect()
}

#[test]
fn scheme_replies() {
    let r = nav_reply();
    assert_eq!((r.status, pairs(&r.headers), r.body.len()), (200, vec![("Access-Control-Allow-Origin", "*")], 0));
    let r = progress_page_reply(None);
    assert_eq!(r.status, 500);
    assert_eq!(r.body, b"Failed to read progress.html: Not found in assets");
    let r = progress_page_reply(Some(b"<p>".to_vec()));
    assert_eq!((r.status, pairs(&r.headers), r.body.as_slice()), (200, vec![("Content-Type", "text/html")], &b"<p>"[..]));
    let r = progress_api_reply(&ImportState::new());
    assert_eq!(r.status, 200);
    assert_eq!(
        String::from_utf8(r.body).unwrap(),
        r#"{"is_importing":false,"phase":"idle","processed_bytes":0,"total_bytes":0,"processed_entries":0}"#
    );
    let r = frontpage_asset_reply(Some(("text/css".to_string(), b"a{}".to_vec())));
    assert_eq!((r.status, pairs(&r.headers)), (200, vec![("Content-Type", "text/css")]));
    assert_eq!(frontpage_asset_reply(None).status, 404);
    let r = invalid_host_reply("evil");
    assert_eq!((r.status, r.body.as_slice()), (400, &b"Invalid host: evil"[..]));
    let r = subspace_not_found_reply();
    assert_eq!((r.status, r.body.as_slice()), (404, &b"Not found"[..]));
}

#[test]
fn lookup_steps() {
    let found = StoreReply::Found {
        mime: "text/html".to_string(),
        bytes: b"<a href='http://sneakerweb.localhost/x'>".to_vec(),
        etag: "e1".to_string(),
    };
    match subspace_lookup_step(found, UrlStyle::CustomScheme) {
        LookupStep::Reply(r) => {
            assert_eq!(r.status, 200);
            assert_eq!(
                pairs(&r.headers),
                vec![("Content-Type", "text/html"), ("ETag", "e1"), ("Access-Control-Allow-Origin", "*")]
            );
            assert_eq!(r.body, b"<a href='sneaker://home/x'>");
        }
        LookupStep::Next => panic!("found file must be served"),
    }
    assert!(matches!(subspace_lookup_step(StoreReply::Missing, UrlStyle::CustomScheme), LookupStep::Next));
    match subspace_lookup_step(StoreReply::Failed("locked".to_string()), UrlStyle::CustomScheme) {
        LookupStep::Reply(r) => assert_eq!((r.status, r.body.as_slice()), (503, &b"Store busy: locked"[..])),
        LookupStep::Next => panic!(),
    }
    match subspace_lookup_step(StoreReply::TimedOut, UrlStyle::CustomScheme) {
        LookupStep::Reply(r) => assert_eq!((r.status, r.body.as_slice()), (503, &b"Store busy (timeout)"[..])),
        LookupStep::Next => panic!(),
    }
    match subspace_lookup_step(StoreReply::Disconnected, UrlStyle::CustomScheme) {
        LookupStep::Reply(r) => assert_eq!((r.status, r.body.as_slice()), (500, &b"Store thread died"[..])),
        LookupStep::Next => panic!(),
    }
    let png = StoreReply::Found { mime: "image/png".to_string(), bytes: vec![0xff, 0], etag: "e".to_string() };
    match subspace_lookup_step(png, UrlStyle::CustomScheme) {
        LookupStep::Reply(r) => assert_eq!(r.body, vec![0xff, 0]),
        LookupStep::Next => panic!(),
    }
}

#[test]
fn frontpage_replies() {
    let r = frontpage_reply(FrontpageReply::Rendered("go http://sneakerweb.localhost/a".to_string()), UrlStyle::LocalhostHttp);
    assert_eq!(r.status, 200);
    assert_eq!(
        pairs(&r.headers),
        vec![("Content-Type", "text/html; charset=utf-8"), ("Access-Control-Allow-Origin", "*")]
    );
    assert_eq!(r.body, b"go http://home.localhost/a");
    assert_eq!(frontpage_reply(FrontpageReply::Failed("x".to_string()), UrlStyle::CustomScheme).body, b"Store busy: x");
    assert_eq!(frontpage_reply(FrontpageReply::TimedOut, UrlStyle::CustomScheme).status, 503);
    assert_eq!(frontpage_reply(FrontpageReply::Disconnected, UrlStyle::CustomScheme).status, 500);
}

#[test]
fn localhost_replies() {
    let r = localhost_nav_reply();
    assert_eq!((r.status, r.reason.as_str(), r.headers.as_str()), (200, "OK", "Access-Control-Allow-Origin: *\r\n"));
    let r = localhost_not_found();
    assert_eq!((r.status, r.reason.as_str(), r.headers.as_str()), (404, "Not Found", ""));
    let r = localhost_progress_page_reply(Some(b"p".to_vec()));
    assert_eq!(r.headers, "Content-Type: text/html; charset=utf-8\r\nAccess-Control-Allow-Origin: *\r\n");
    assert_eq!(localhost_progress_page_reply(None).status, 404);
    let r = localhost_progress_api_reply(&ImportState::new());
    assert_eq!(r.headers, "Content-Type: application/json\r\nAccess-Control-Allow-Origin: *\r\n");
    let r = localhost_asset_reply(Some(("image/svg+xml".to_string(), b"<svg/>".to_vec())));
    assert_eq!(r.headers, "Content-Type: image/svg+xml\r\nAccess-Control-Allow-Origin: *\r\n");
    assert_eq!(localhost_asset_reply(None).status, 404);
    let r = localhost_frontpage_reply(FrontpageReply::Rendered("x".to_string()), UrlStyle::LocalhostHttp).unwrap();
    assert_eq!((r.status, r.body.as_slice()), (200, &b"x"[..]));
    let r = localhost_frontpage_reply(FrontpageReply::TimedOut, UrlStyle::LocalhostHttp).unwrap();
    assert_eq!((r.status, r.reason.as_str(), r.headers.as_str()), (503, "Service Unavailable", "Retry-After: 5\r\nAccess-Control-Allow-Origin: *\r\n"));
    assert!(localhost_frontpage_reply(FrontpageReply::Disconnected, UrlStyle::LocalhostHttp).is_none());
    let found = StoreReply::Found { mime: "text/css".to_string(), bytes: b"a".to_vec(), etag: "t".to_string() };
    match localhost_lookup_step(found, UrlStyle::LocalhostHttp) {
        LocalLookupStep::Reply(r) => assert_eq!(r.headers, "Content-Type: text/css\nETag: t\nAccess-Control-Allow-Origin: *\n"),
        _ => panic!(),
    }
    assert!(matches!(localhost_lookup_step(StoreReply::Missing, UrlStyle::LocalhostHttp), LocalLookupStep::Next));
    assert!(matches!(localhost_lookup_step(StoreReply::TimedOut, UrlStyle::LocalhostHttp), LocalLookupStep::Stop));
}

#[test]
fn valid_text_is_served_decoded_and_rewritten() {
    let found = StoreReply::Found {
        mime: "text/css".to_string(),
        bytes: "u: url(http://sneakerweb.localhost/caf\u{e9}.png)".as_bytes().to_vec(),
        etag: "e".to_string(),
    };
    match localhost_lookup_step(found, UrlStyle::LocalhostHttp) {
        LocalLookupStep::Reply(r) => {
            assert_eq!(r.body, "u: url(http://home.localhost/caf\u{e9}.png)".as_bytes().to_vec())
        }
        _ => panic!("found file must be served"),
    }
}
