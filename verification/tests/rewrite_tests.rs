use sneaker_core::rewrite::{is_rewritable_type, rewrite_urls, rewrite_urls_in_text, UrlStyle};

const HASH: &str = "0123456789abcdef0123456789abcdef0123456789abcdef0123456789abcdef";
const HASH_UPPER: &str = "0123456789ABCDEF0123456789abcdef0123456789ABCDEF0123456789abcdef";

/// The rewriting as the regular expression of the shell states it.
fn reference(text: &str, windows: bool) -> String {
    let re = regex_lite::Regex::new(
        r#"https?://(sneakerweb|[a-fA-F0-9]{64})\.localhost(?::\d+)?(/[^"'\s>]*)?"#,
    )
    .unwrap();
    re.replace_all(text, |caps: &regex_lite::Captures| {
        let subdomain = caps.get(1).map_or("", |m| m.as_str());
        let path = caps.get(2).map_or("", |m| m.as_str());
        match (subdomain == "sneakerweb", windows) {
            (true, true) => format!("http://home.localhost{path}"),
            (true, false) => format!("sneaker://home{path}"),
            (false, true) => format!("http://{subdomain}.localhost{path}"),
            (false, false) => format!("sneaker://{subdomain}{path}"),
        }
    })
    .into_owned()
}

#[test]
fn rewrites_home_link_with_port_and_path() {
    let text = "<a href=\"http://sneakerweb.localhost:8080/feed?x=1\">home</a>";
    assert_eq!(
        rewrite_urls_in_text(text, UrlStyle::CustomScheme),
        "<a href=\"sneaker://home/feed?x=1\">home</a>"
    );
    assert_eq!(
        rewrite_urls_in_text(text, UrlStyle::LocalhostHttp),
        "<a href=\"http://home.localhost/feed?x=1\">home</a>"
    );
}

#[test]
fn rewrites_space_link_and_keeps_hash_case() {
    let text = format!("see https://{HASH_UPPER}.localhost/a/b.png done");
    assert_eq!(
        rewrite_urls_in_text(&text, UrlStyle::CustomScheme),
        format!("see sneaker://{HASH_UPPER}/a/b.png done")
    );
    assert_eq!(
        rewrite_urls_in_text(&text, UrlStyle::LocalhostHttp),
        format!("see http://{HASH_UPPER}.localhost/a/b.png done")
    );
}

#[test]
fn leaves_other_hosts_and_short_hashes_alone() {
    let text = format!(
        "http://example.com/ http://{}.localhost/x http://sneakerweb.local/ ftp://sneakerweb.localhost/",
        &HASH[..63]
    );
    assert_eq!(rewrite_urls_in_text(&text, UrlStyle::CustomScheme), text);
}

#[test]
fn port_without_digits_is_not_part_of_the_link() {
    assert_eq!(
        rewrite_urls_in_text("http://sneakerweb.localhost:/x", UrlStyle::CustomScheme),
        "sneaker://home:/x"
    );
    assert_eq!(
        rewrite_urls_in_text("http://sneakerweb.localhost:99x", UrlStyle::CustomScheme),
        "sneaker://homex"
    );
}

#[test]
fn path_stops_at_quotes_space_and_angle() {
    let text = "'http://sneakerweb.localhost/a'b http://sneakerweb.localhost/c>d \
                http://sneakerweb.localhost/e\tf";
    assert_eq!(
        rewrite_urls_in_text(text, UrlStyle::CustomScheme),
        "'sneaker://home/a'b sneaker://home/c>d sneaker://home/e\tf"
    );
}

#[test]
fn non_ascii_path_characters_are_kept() {
    let text = "http://sneakerweb.localhost/caf\u{e9}/\u{65e5}\u{672c} end";
    assert_eq!(
        rewrite_urls_in_text(text, UrlStyle::CustomScheme),
        "sneaker://home/caf\u{e9}/\u{65e5}\u{672c} end"
    );
}

#[test]
fn agrees_with_the_regular_expression() {
    let pieces = [
        "http://", "https://", "http", "s", "sneakerweb", ".localhost", ":", "8080", "/", "a",
        "\"", " ", ">", "'", "\n", HASH, HASH_UPPER, &HASH[..63], "\u{e9}", "x", "\t", "?q=1",
    ];
    let mut seed: u64 = 0x2545_f491_4f6c_dd1d;
    for _ in 0..3000 {
        let mut text = String::new();
        seed ^= seed << 13;
        seed ^= seed >> 7;
        seed ^= seed << 17;
        let n = (seed % 12) as usize;
        for _ in 0..n {
            seed ^= seed << 13;
            seed ^= seed >> 7;
            seed ^= seed << 17;
            text.push_str(pieces[(seed % pieces.len() as u64) as usize]);
        }
        assert_eq!(rewrite_urls_in_text(&text, UrlStyle::CustomScheme), reference(&text, false), "{text:?}");
        assert_eq!(rewrite_urls_in_text(&text, UrlStyle::LocalhostHttp), reference(&text, true), "{text:?}");
    }
}

#[test]
fn only_text_types_are_rewritten() {
    for ct in ["text/html", "text/css; charset=utf-8", "application/javascript", "text/javascript", "application/json"] {
        assert!(is_rewritable_type(ct), "{ct}");
    }
    for ct in ["image/png", "application/octet-stream", "", "text/plain"] {
        assert!(!is_rewritable_type(ct), "{ct}");
    }
    let body = b"http://sneakerweb.localhost/a";
    assert_eq!(rewrite_urls(body, "image/png", UrlStyle::CustomScheme), body.to_vec());
    assert_eq!(rewrite_urls(body, "text/html", UrlStyle::CustomScheme), b"sneaker://home/a".to_vec());
}

#[test]
fn invalid_utf8_is_decoded_leniently() {
    let body = [b'a', 0xff, b'b'];
    assert_eq!(
        rewrite_urls(&body, "text/css", UrlStyle::CustomScheme),
        "a\u{fffd}b".as_bytes().to_vec()
    );
    assert_eq!(rewrite_urls(&body, "font/woff", UrlStyle::CustomScheme), body.to_vec());
}

#[test]
fn text_without_links_is_unchanged() {
    let text = "plain text, http://elsewhere.example/ and sneakerweb.localhost alone";
    assert_eq!(rewrite_urls_in_text(text, UrlStyle::LocalhostHttp), text);
}
