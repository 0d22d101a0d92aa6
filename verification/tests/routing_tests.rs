use sneaker_core::routing::{
    extract_hash_from_referer, route_protocol_request, try_paths, RouteKind,
};

const HASH: &str = "0123456789abcdef0123456789abcdef0123456789abcdef0123456789abcdef";

fn reference_referer_hash(referer: &str) -> Option<String> {
    let re = regex_lite::Regex::new(r#"^https?://sneaker\.localhost(?:[:/]|$)"#).unwrap();
    if !re.is_match(referer) {
        return None;
    }
    let after_host = if referer.starts_with("http://") {
        &referer["http://sneaker.localhost".len()..]
    } else if referer.starts_with("https://") {
        &referer["https://sneaker.localhost".len()..]
    } else {
        return None;
    };
    let path_part = after_host.trim_start_matches(':').trim_start_matches('/');
    let first_segment = path_part.split('/').next().unwrap_or("");
    if first_segment.len() == 64 && first_segment.chars().all(|c| c.is_ascii_hexdigit()) {
        Some(first_segment.to_string())
    } else {
        None
    }
}

#[test]
fn referer_hashes() {
    let cases = [
        format!("http://sneaker.localhost/{HASH}/page"),
        format!("https://sneaker.localhost:/{HASH}"),
        format!("http://sneaker.localhost::://{HASH}/x"),
        format!("http://sneaker.localhostX/{HASH}"),
        format!("http://sneaker.localhost/{}", &HASH[1..]),
        format!("http://other.localhost/{HASH}"),
        "http://sneaker.localhost".to_string(),
        "https://sneaker.localhost/".to_string(),
        String::new(),
        format!("http://sneaker.localhost/{}G", &HASH[1..]),
    ];
    for r in cases {
        assert_eq!(extract_hash_from_referer(&r), reference_referer_hash(&r), "{r:?}");
    }
}

#[test]
fn candidate_store_paths() {
    assert_eq!(try_paths("/docs/"), ["/docs/", "/docs/index.html"]);
    assert_eq!(try_paths("/a"), ["/a", "/a.html", "/a/index.html"]);
    assert_eq!(try_paths(""), ["", ".html", "/index.html"]);
}

/// The routing of the shell's `sneaker://` handler.
fn reference_route(host: Option<&str>, path: &str, referer: &str, windows: bool) -> (RouteKind, String, String) {
    let host_buf = host.unwrap_or("home").to_string();
    let path_str = path.to_string();
    if host_buf == "__nav__" {
        return (RouteKind::Nav, host_buf, path_str);
    }
    let original_path = path_str.clone();
    let is_vite_dev = path_str.starts_with("/@vite/")
        || path_str.starts_with("/@id/")
        || path_str.starts_with("/@fs/")
        || path_str.starts_with("/src/")
        || path_str.starts_with("/node_modules/")
        || path_str == "/@react-refresh";
    let lower = path_str.to_lowercase();
    let is_static_asset = [
        ".js", ".mjs", ".css", ".map", ".png", ".jpg", ".jpeg", ".webp", ".gif", ".svg", ".ico",
        ".avif", ".woff", ".woff2", ".ttf", ".otf", ".mp4", ".webm", ".mp3", ".ogg", ".json", ".xml",
    ]
    .iter()
    .any(|e| lower.ends_with(e));
    let is_asset = is_vite_dev || is_static_asset || path_str.starts_with("/_app/") || path_str.starts_with("/assets/");
    let (host_buf, path_str) = if windows {
        let mut host = host_buf.clone();
        let mut path = path_str.clone();
        let is_special_path = is_asset || path == "/__progress__" || path == "/__progress_api__";
        if host == "localhost" && !is_special_path {
            let key = path.trim_start_matches('/');
            let first_segment = key.split('/').next().unwrap_or("");
            let path_has_hash_prefix =
                first_segment.len() == 64 && first_segment.chars().all(|c| c.is_ascii_hexdigit());
            if path_has_hash_prefix {
                if let Some((hash_part, rest)) = key.split_once('/') {
                    host = hash_part.to_string();
                    path = format!("/{}", rest);
                } else {
                    host = key.to_string();
                    path = "/".to_string();
                }
            } else if let Some(hash) = reference_referer_hash(referer) {
                host = hash;
            }
        }
        (host, path)
    } else {
        (host_buf, path_str)
    };
    let host = &host_buf;
    let path = &path_str;
    if path == "/__progress__" {
        return (RouteKind::ProgressPage, host.clone(), path.clone());
    }
    if path == "/__progress_api__" {
        return (RouteKind::ProgressApi, host.clone(), path.clone());
    }
    let is_subspace = host.len() == 64;
    let is_frontpage = host == "home" || host == "localhost" || host.is_empty();
    if is_subspace {
        return (RouteKind::Subspace, host.clone(), path.clone());
    }
    if is_frontpage && is_asset {
        return (RouteKind::FrontpageAsset, host.clone(), original_path.trim_start_matches('/').to_string());
    }
    if is_frontpage {
        return (RouteKind::Frontpage, host.clone(), path.clone());
    }
    (RouteKind::InvalidHost, host.clone(), path.clone())
}

#[test]
fn protocol_routes_agree_with_the_handler() {
    let hosts = [None, Some("home"), Some("localhost"), Some(""), Some(HASH), Some("__nav__"), Some("evil"), Some("HOME")];
    let paths = [
        "/".to_string(),
        "/__progress__".to_string(),
        "/__progress_api__".to_string(),
        "/assets/app.JS".to_string(),
        "/_app/x".to_string(),
        "/@vite/client".to_string(),
        "/@react-refresh".to_string(),
        "/video.WEBM".to_string(),
        "/page".to_string(),
        format!("/{HASH}/a/b"),
        format!("/{HASH}"),
        format!("//{HASH}/"),
        format!("/{HASH}.css"),
        "///".to_string(),
        "/I\u{130}.ico".to_string(),
    ];
    let referers = [String::new(), format!("http://sneaker.localhost/{HASH}/x"), "http://x/".to_string()];
    for host in hosts {
        for path in &paths {
            for referer in &referers {
                for windows in [false, true] {
                    let r = route_protocol_request(host, path, referer, windows);
                    let want = reference_route(host, path, referer, windows);
                    assert_eq!((r.kind, r.host, r.path), want, "{host:?} {path:?} {referer:?} {windows}");
                }
            }
        }
    }
}
