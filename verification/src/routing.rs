//! Routing of the reader's `sneaker://` requests (and, where the custom
//! scheme is reached through `http://*.localhost`, of those): which
//! requests are static assets, which space a request belongs to, and which
//! store paths are tried for it.
use vstd::prelude::*;
use vstd::string::*;
use vstd::utf8::encode_utf8;
use vstd::slice::slice_subrange;
use crate::text::{
    CharClass, chars_of, occurs_at, matches_str_at, ends_with, ends_with_ci, ends_with_ci_str,
    trim_start_char, trim_start_char_of, is_hash, is_hash_text, span, scan_class, lemma_span,
    string_of_all, string_of,
};

verus! {

/// Whether a path names a static file by its extension (ASCII case
/// ignored): scripts, styles, source maps, images, fonts, and, with
/// `media`, audio, video, JSON and XML too.
pub open spec fn has_asset_extension(path: Seq<char>, media: bool) -> bool {
    ||| ends_with_ci(path, ".js"@)
    ||| ends_with_ci(path, ".mjs"@)
    ||| ends_with_ci(path, ".css"@)
    ||| ends_with_ci(path, ".map"@)
    ||| ends_with_ci(path, ".png"@)
    ||| ends_with_ci(path, ".jpg"@)
    ||| ends_with_ci(path, ".jpeg"@)
    ||| ends_with_ci(path, ".webp"@)
    ||| ends_with_ci(path, ".gif"@)
    ||| ends_with_ci(path, ".svg"@)
    ||| ends_with_ci(path, ".ico"@)
    ||| ends_with_ci(path, ".avif"@)
    ||| ends_with_ci(path, ".woff"@)
    ||| ends_with_ci(path, ".woff2"@)
    ||| ends_with_ci(path, ".ttf"@)
    ||| ends_with_ci(path, ".otf"@)
    ||| media && (ends_with_ci(path, ".mp4"@) || ends_with_ci(path, ".webm"@) || ends_with_ci(
        path,
        ".mp3"@,
    ) || ends_with_ci(path, ".ogg"@) || ends_with_ci(path, ".json"@) || ends_with_ci(
        path,
        ".xml"@,
    ))
}

/// Whether a path names a static file by its extension.
pub fn asset_extension(path: &[char], media: bool) -> (r: bool)
    ensures
        r == has_asset_extension(path@, media),
{
    ends_with_ci_str(path, ".js") || ends_with_ci_str(path, ".mjs") || ends_with_ci_str(
        path,
        ".css",
    ) || ends_with_ci_str(path, ".map") || ends_with_ci_str(path, ".png") || ends_with_ci_str(
        path,
        ".jpg",
    ) || ends_with_ci_str(path, ".jpeg") || ends_with_ci_str(path, ".webp") || ends_with_ci_str(
        path,
        ".gif",
    ) || ends_with_ci_str(path, ".svg") || ends_with_ci_str(path, ".ico") || ends_with_ci_str(
        path,
        ".avif",
    ) || ends_with_ci_str(path, ".woff") || ends_with_ci_str(path, ".woff2") || ends_with_ci_str(
        path,
        ".ttf",
    ) || ends_with_ci_str(path, ".otf") || (media && (ends_with_ci_str(path, ".mp4")
        || ends_with_ci_str(path, ".webm") || ends_with_ci_str(path, ".mp3") || ends_with_ci_str(
        path,
        ".ogg",
    ) || ends_with_ci_str(path, ".json") || ends_with_ci_str(path, ".xml")))
}

/// A path that ends, in any ASCII case, in the extension of a script,
/// style, source map, image or font file (`.js .mjs .css .map .png .jpg
/// .jpeg .webp .gif .svg .ico .avif .woff .woff2 .ttf .otf`) is served from
/// the bundled assets, through the custom scheme and through localhost alike.
pub proof fn lemma_static_files_are_assets(path: Seq<char>, ext: Seq<char>)
    requires
        ext == ".js"@ || ext == ".mjs"@ || ext == ".css"@ || ext == ".map"@ || ext == ".png"@
            || ext == ".jpg"@ || ext == ".jpeg"@ || ext == ".webp"@ || ext == ".gif"@ || ext
            == ".svg"@ || ext == ".ico"@ || ext == ".avif"@ || ext == ".woff"@ || ext == ".woff2"@
            || ext == ".ttf"@ || ext == ".otf"@,
        ext.len() <= path.len(),
        forall|k: int|
            0 <= k < ext.len() ==> crate::text::lower_ascii(#[trigger] path[path.len() - ext.len() + k])
                == ext[k],
    ensures
        is_protocol_asset(path),
        is_localhost_asset(path),
{
    assert(ends_with_ci(path, ext));
}

/// A path that ends, in any ASCII case, in the extension of a media or data
/// file (`.mp4 .webm .mp3 .ogg .json .xml`) is served from the bundled
/// assets through the custom scheme.
pub proof fn lemma_media_files_are_assets(path: Seq<char>, ext: Seq<char>)
    requires
        ext == ".mp4"@ || ext == ".webm"@ || ext == ".mp3"@ || ext == ".ogg"@ || ext == ".json"@
            || ext == ".xml"@,
        ext.len() <= path.len(),
        forall|k: int|
            0 <= k < ext.len() ==> crate::text::lower_ascii(#[trigger] path[path.len() - ext.len() + k])
                == ext[k],
    ensures
        is_protocol_asset(path),
{
    assert(ends_with_ci(path, ext));
}

/// Whether a path belongs to the front end's development server.
pub open spec fn is_dev_server_path(path: Seq<char>) -> bool {
    ||| occurs_at(path, 0, "/@vite/"@)
    ||| occurs_at(path, 0, "/@id/"@)
    ||| occurs_at(path, 0, "/@fs/"@)
    ||| occurs_at(path, 0, "/src/"@)
    ||| occurs_at(path, 0, "/node_modules/"@)
    ||| path == "/@react-refresh"@
}

/// Whether a `sneaker://` path is served from the bundled assets when it
/// addresses the home page: a development-server path, a static file, or a
/// path under `/_app/` or `/assets/`.
pub open spec fn is_protocol_asset(path: Seq<char>) -> bool {
    ||| is_dev_server_path(path)
    ||| has_asset_extension(path, true)
    ||| occurs_at(path, 0, "/_app/"@)
    ||| occurs_at(path, 0, "/assets/"@)
}

/// Whether a `sneaker://` path is served from the bundled assets.
pub fn protocol_asset(path: &[char]) -> (r: bool)
    ensures
        r == is_protocol_asset(path@),
{
    let dev = matches_str_at(path, 0, "/@vite/") || matches_str_at(path, 0, "/@id/")
        || matches_str_at(path, 0, "/@fs/") || matches_str_at(path, 0, "/src/") || matches_str_at(
        path,
        0,
        "/node_modules/",
    ) || crate::text::range_equals(path, 0, path.len(), "/@react-refresh");
    proof {
        assert(path@.subrange(0, path@.len() as int) =~= path@);
    }
    dev || asset_extension(path, true) || matches_str_at(path, 0, "/_app/") || matches_str_at(
        path,
        0,
        "/assets/",
    )
}

/// Whether an `http://*.localhost` path is served from the bundled assets
/// when it addresses the home page: a static file (no media), or a path
/// under `/_app/`, `/assets/`, `/images/` or `/fonts/`.
pub open spec fn is_localhost_asset(path: Seq<char>) -> bool {
    ||| has_asset_extension(path, false)
    ||| occurs_at(path, 0, "/_app/"@)
    ||| occurs_at(path, 0, "/assets/"@)
    ||| occurs_at(path, 0, "/images/"@)
    ||| occurs_at(path, 0, "/fonts/"@)
}

/// Whether an `http://*.localhost` path is served from the bundled assets.
pub fn localhost_asset(path: &[char]) -> (r: bool)
    ensures
        r == is_localhost_asset(path@),
{
    asset_extension(path, false) || matches_str_at(path, 0, "/_app/") || matches_str_at(
        path,
        0,
        "/assets/",
    ) || matches_str_at(path, 0, "/images/") || matches_str_at(path, 0, "/fonts/")
}

/// The store paths tried, in order, for a path in a space: the path
/// itself, then for a directory (`/` at the end) its `index.html`, and
/// otherwise the path with `.html` and then its `/index.html`.
pub open spec fn candidate_paths(path: Seq<char>) -> Seq<Seq<char>> {
    if ends_with(path, "/"@) {
        seq![path, path + "index.html"@]
    } else {
        seq![path, path + ".html"@, path + "/index.html"@]
    }
}

/// For a path ending in `/` (the root `/` of a space included), the store
/// is asked for the path and then its `index.html`; for any other path,
/// for the path, the path with `.html`, and the path's `/index.html`.
pub proof fn lemma_candidate_paths(path: Seq<char>)
    ensures
        path.len() > 0 && path.last() == '/' ==> candidate_paths(path) == seq![
            path,
            path + "index.html"@,
        ],
        !(path.len() > 0 && path.last() == '/') ==> candidate_paths(path) == seq![
            path,
            path + ".html"@,
            path + "/index.html"@,
        ],
{
    reveal_strlit("/");
    assert("/"@ =~= seq!['/']);
    if path.len() > 0 {
        let t = path.subrange(path.len() - 1, path.len() as int);
        assert(t =~= seq![path.last()]);
        assert(t[0] == path.last());
        if t == "/"@ {
            assert(t[0] == "/"@[0]);
        }
    }
}

/// The store paths tried for a path in a space.
pub fn try_paths(path: &str) -> (r: Vec<String>)
    ensures
        r@.len() == candidate_paths(path@).len(),
        forall|i: int| 0 <= i < r@.len() ==> #[trigger] r@[i]@ == candidate_paths(path@)[i],
        r@[0]@ == path@,
        forall|i: int|
            0 <= i < r@.len() ==> (#[trigger] r@[i]@).subrange(0, path@.len() as int) == path@,
        path@.len() > 0 && path@.last() == '/' ==> r@.len() == 2 && r@[1]@ == path@
            + "index.html"@,
        !(path@.len() > 0 && path@.last() == '/') ==> r@.len() == 3 && r@[1]@ == path@ + ".html"@
            && r@[2]@ == path@ + "/index.html"@,
{
    proof {
        lemma_candidate_paths(path@);
    }
    let v = chars_of(path);
    let n = v.len();
    let dir = n > 0 && v[n - 1] == '/';
    proof {
        reveal_strlit("/");
        assert("/"@ =~= seq!['/']);
        assert(dir == ends_with(path@, "/"@)) by {
            if n > 0 {
                assert(path@.subrange(n - 1, n as int) =~= seq![path@[n - 1]]);
                assert(seq![path@[n - 1]][0] == path@[n - 1]);
                assert(seq!['/'][0] == '/');
            }
        }
    }
    let mut r: Vec<String> = Vec::new();
    r.push(path.to_owned());
    proof {
        assert forall|x: Seq<char>| (path@ + x).subrange(0, path@.len() as int) == path@ by {
            assert((path@ + x).subrange(0, path@.len() as int) =~= path@);
        }
        assert(path@.subrange(0, path@.len() as int) =~= path@);
    }
    if dir {
        let mut p = path.to_owned();
        p.append("index.html");
        r.push(p);
    } else {
        let mut p = path.to_owned();
        p.append(".html");
        r.push(p);
        let mut q = path.to_owned();
        q.append("/index.html");
        r.push(q);
    }
    r
}

/// The space hash a `http(s)://sneaker.localhost` referer names: its first
/// path segment (after any `:` and then `/` characters) when that is 64
/// hexadecimal digits.
pub open spec fn referer_hash(referer: Seq<char>) -> Option<Seq<char>> {
    let n = if occurs_at(referer, 0, "http://sneaker.localhost"@) {
        "http://sneaker.localhost"@.len() as int
    } else if occurs_at(referer, 0, "https://sneaker.localhost"@) {
        "https://sneaker.localhost"@.len() as int
    } else {
        0
    };
    if n == 0 || !(n == referer.len() || referer[n] == ':' || referer[n] == '/') {
        None
    } else {
        let p = trim_start_char(
            trim_start_char(referer.subrange(n, referer.len() as int), ':'),
            '/',
        );
        let seg = p.subrange(0, span(p, 0, CharClass::NotChar('/')));
        if is_hash(seg) {
            Some(seg)
        } else {
            None
        }
    }
}

/// The space hash that a referer names, if it names one.
pub fn extract_hash_from_referer(referer: &str) -> (r: Option<String>)
    ensures
        r matches Some(h) ==> referer_hash(referer@) == Some(h@),
        r is None ==> referer_hash(referer@) is None,
        r matches Some(h) ==> is_hash(h@),
{
    let v = chars_of(referer);
    let s = v.as_slice();
    let lp = chars_of("http://sneaker.localhost");
    let lps = chars_of("https://sneaker.localhost");
    let n: usize = if matches_str_at(s, 0, "http://sneaker.localhost") {
        lp.len()
    } else if matches_str_at(s, 0, "https://sneaker.localhost") {
        lps.len()
    } else {
        0
    };
    if n == 0 || !(n == s.len() || s[n] == ':' || s[n] == '/') {
        return None;
    }
    let after = slice_subrange(s, n, s.len());
    let a = trim_start_char_of(after, ':');
    let p = trim_start_char_of(a, '/');
    let e = scan_class(p, 0, &CharClass::NotChar('/'));
    proof {
        lemma_span(p@, 0, CharClass::NotChar('/'));
    }
    let seg = slice_subrange(p, 0, e);
    if is_hash_text(seg) {
        Some(string_of_all(seg))
    } else {
        None
    }
}


/// Where the custom scheme is served through `http://localhost/...`
/// (`windows`), the space and path a request to host `localhost` really
/// means: a leading 64-hex segment of the path is the space (and the rest
/// the path), else the space that the referer names; other requests, and
/// assets and the progress paths, keep their host and path.
pub open spec fn localhost_target(host: Seq<char>, path: Seq<char>, referer: Seq<char>, asset: bool) -> (
    Seq<char>,
    Seq<char>,
) {
    let special = asset || path == "/__progress__"@ || path == "/__progress_api__"@;
    if host == "localhost"@ && !special {
        let key = trim_start_char(path, '/');
        let e = span(key, 0, CharClass::NotChar('/'));
        let seg = key.subrange(0, e);
        if is_hash(seg) {
            if e < key.len() {
                (seg, "/"@ + key.subrange(e + 1, key.len() as int))
            } else {
                (key, "/"@)
            }
        } else {
            match referer_hash(referer) {
                Some(h) => (h, path),
                None => (host, path),
            }
        }
    } else {
        (host, path)
    }
}

/// What a `sneaker://` request is served with.
#[derive(Clone, Copy, PartialEq, Eq, Debug)]
pub enum RouteKind {
    /// A navigation notice from the content page (host `__nav__`).
    Nav,
    /// The progress page.
    ProgressPage,
    /// The progress status document.
    ProgressApi,
    /// A file of the space `host`, looked up in the store.
    Subspace,
    /// A bundled asset of the home page (`path` is the asset key).
    FrontpageAsset,
    /// A page of the home page, rendered by the store (`path` is the order).
    Frontpage,
    /// A host that is neither a space nor the home page.
    InvalidHost,
}

/// The route of a `sneaker://` request, with the host and path it is
/// served for.
#[derive(Debug)]
pub struct ProtocolRoute {
    pub kind: RouteKind,
    pub host: String,
    pub path: String,
}

/// The route of a `sneaker://` request with host `host` (absent: `home`),
/// path `path` and referer `referer`; `windows` where the scheme is served
/// through `http://localhost`.
pub open spec fn protocol_route(
    host: Option<Seq<char>>,
    path: Seq<char>,
    referer: Seq<char>,
    windows: bool,
) -> (RouteKind, Seq<char>, Seq<char>) {
    let h0 = match host {
        Some(h) => h,
        None => "home"@,
    };
    if h0 == "__nav__"@ {
        (RouteKind::Nav, h0, path)
    } else {
        let asset = is_protocol_asset(path);
        let (h, p) = if windows {
            localhost_target(h0, path, referer, asset)
        } else {
            (h0, path)
        };
        if p == "/__progress__"@ {
            (RouteKind::ProgressPage, h, p)
        } else if p == "/__progress_api__"@ {
            (RouteKind::ProgressApi, h, p)
        } else if encode_utf8(h).len() == 64 {
            (RouteKind::Subspace, h, p)
        } else if (h == "home"@ || h == "localhost"@ || h.len() == 0) && asset {
            (RouteKind::FrontpageAsset, h, trim_start_char(path, '/'))
        } else if h == "home"@ || h == "localhost"@ || h.len() == 0 {
            (RouteKind::Frontpage, h, p)
        } else {
            (RouteKind::InvalidHost, h, p)
        }
    }
}

/// Whether `s` has exactly the characters of `p`.
fn text_is(s: &[char], p: &str) -> (r: bool)
    ensures
        r == (s@ == p@),
{
    let r = crate::text::range_equals(s, 0, s.len(), p);
    assert(s@.subrange(0, s@.len() as int) =~= s@);
    r
}

/// The host and path a request to `localhost` really means.
fn localhost_target_of(host: &[char], path: &[char], referer: &str, asset: bool) -> (r: (
    String,
    String,
))
    ensures
        r.0@ == localhost_target(host@, path@, referer@, asset).0,
        r.1@ == localhost_target(host@, path@, referer@, asset).1,
{
    let special = asset || text_is(path, "/__progress__") || text_is(path, "/__progress_api__");
    if text_is(host, "localhost") && !special {
        let key = trim_start_char_of(path, '/');
        let e = scan_class(key, 0, &CharClass::NotChar('/'));
        proof {
            lemma_span(key@, 0, CharClass::NotChar('/'));
        }
        let seg = slice_subrange(key, 0, e);
        if is_hash_text(seg) {
            if e < key.len() {
                let mut p = "/".to_owned();
                crate::text::push_chars(&mut p, key, e + 1, key.len());
                (string_of_all(seg), p)
            } else {
                (string_of_all(key), "/".to_owned())
            }
        } else {
            match extract_hash_from_referer(referer) {
                Some(h) => (h, string_of_all(path)),
                None => (string_of_all(host), string_of_all(path)),
            }
        }
    } else {
        (string_of_all(host), string_of_all(path))
    }
}

/// The route of a `sneaker://` request.
pub fn route_protocol_request(host: Option<&str>, path: &str, referer: &str, windows: bool) -> (r:
    ProtocolRoute)
    ensures
        ({
            let want = protocol_route(
                match host {
                    Some(h) => Some(h@),
                    None => None,
                },
                path@,
                referer@,
                windows,
            );
            &&& r.kind == want.0
            &&& r.host@ == want.1
            &&& r.path@ == want.2
        }),
{
    let h0: &str = match host {
        Some(h) => h,
        None => "home",
    };
    let hv = chars_of(h0);
    let pv = chars_of(path);
    if text_is(hv.as_slice(), "__nav__") {
        return ProtocolRoute { kind: RouteKind::Nav, host: h0.to_owned(), path: path.to_owned() };
    }
    let asset = protocol_asset(pv.as_slice());
    let (h, p) = if windows {
        localhost_target_of(hv.as_slice(), pv.as_slice(), referer, asset)
    } else {
        (h0.to_owned(), path.to_owned())
    };
    let hc = chars_of(h.as_str());
    let pc = chars_of(p.as_str());
    let frontpage = text_is(hc.as_slice(), "home") || text_is(hc.as_slice(), "localhost")
        || hc.len() == 0;
    let kind = if text_is(pc.as_slice(), "/__progress__") {
        RouteKind::ProgressPage
    } else if text_is(pc.as_slice(), "/__progress_api__") {
        RouteKind::ProgressApi
    } else if h.as_str().as_bytes().len() == 64 {
        RouteKind::Subspace
    } else if frontpage && asset {
        let key = trim_start_char_of(pv.as_slice(), '/');
        return ProtocolRoute { kind: RouteKind::FrontpageAsset, host: h, path: string_of_all(key) };
    } else if frontpage {
        RouteKind::Frontpage
    } else {
        RouteKind::InvalidHost
    };
    ProtocolRoute { kind, host: h, path: p }
}


/// A request to the home page (no host, `home`, `localhost` or an empty
/// host) for a path that ends, in any ASCII case, in the extension of a
/// static, media or data file is served from the bundled assets, under the
/// path without its leading `/`, on every platform and whatever the referer.
pub proof fn lemma_home_static_file_is_bundled(
    host: Option<Seq<char>>,
    path: Seq<char>,
    ext: Seq<char>,
    referer: Seq<char>,
    windows: bool,
)
    requires
        host == None::<Seq<char>> || host == Some("home"@) || host == Some("localhost"@) || host
            == Some(Seq::<char>::empty()),
        ext == ".js"@ || ext == ".mjs"@ || ext == ".css"@ || ext == ".map"@ || ext == ".png"@
            || ext == ".jpg"@ || ext == ".jpeg"@ || ext == ".webp"@ || ext == ".gif"@ || ext
            == ".svg"@ || ext == ".ico"@ || ext == ".avif"@ || ext == ".woff"@ || ext == ".woff2"@
            || ext == ".ttf"@ || ext == ".otf"@ || ext == ".mp4"@ || ext == ".webm"@ || ext
            == ".mp3"@ || ext == ".ogg"@ || ext == ".json"@ || ext == ".xml"@,
        ext.len() <= path.len(),
        forall|k: int|
            0 <= k < ext.len() ==> crate::text::lower_ascii(#[trigger] path[path.len() - ext.len() + k])
                == ext[k],
    ensures
        protocol_route(host, path, referer, windows).0 == RouteKind::FrontpageAsset,
        protocol_route(host, path, referer, windows).2 == trim_start_char(path, '/'),
{
    reveal_strlit("home");
    reveal_strlit("localhost");
    reveal_strlit("__nav__");
    reveal_strlit("/__progress__");
    reveal_strlit("/__progress_api__");
    reveal_strlit(".js");
    reveal_strlit(".mjs");
    reveal_strlit(".css");
    reveal_strlit(".map");
    reveal_strlit(".png");
    reveal_strlit(".jpg");
    reveal_strlit(".jpeg");
    reveal_strlit(".webp");
    reveal_strlit(".gif");
    reveal_strlit(".svg");
    reveal_strlit(".ico");
    reveal_strlit(".avif");
    reveal_strlit(".woff");
    reveal_strlit(".woff2");
    reveal_strlit(".ttf");
    reveal_strlit(".otf");
    reveal_strlit(".mp4");
    reveal_strlit(".webm");
    reveal_strlit(".mp3");
    reveal_strlit(".ogg");
    reveal_strlit(".json");
    reveal_strlit(".xml");
    assert(ends_with_ci(path, ext));
    assert(is_protocol_asset(path));
    let h0 = match host {
        Some(h) => h,
        None => "home"@,
    };
    assert(h0.len() <= 9);
    assert(h0 != "__nav__"@);
    let last = ext.len() - 1;
    assert(crate::text::lower_ascii(path[path.len() - ext.len() + last]) == ext[last]);
    assert(ext[last] != '_');
    assert(path != "/__progress__"@) by {
        if path == "/__progress__"@ {
            assert(path[path.len() - 1] == '_');
        }
    }
    assert(path != "/__progress_api__"@) by {
        if path == "/__progress_api__"@ {
            assert(path[path.len() - 1] == '_');
        }
    }
    assert(vstd::utf8::is_ascii_chars(h0));
    vstd::utf8::is_ascii_chars_encode_utf8(h0);
}

} // verus!
