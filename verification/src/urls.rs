//! URLs of the reader: parsing through the `url` crate, the navigation
//! notices that content pages send, where the reader's content view is
//! sent, and how requests to `http://*.localhost` are routed where the
//! custom scheme is served that way.
use vstd::prelude::*;
use vstd::string::*;
use crate::text::{
    chars_of, occurs_at, matches_str_at, ends_with, is_hash, is_hash_text, trim_start_char,
    trim_start_char_of, string_of_all,
};
use crate::routing::{is_localhost_asset, localhost_asset};

verus! {

/// The parts of a parsed URL that the reader uses.
#[derive(Debug)]
pub struct UrlParts {
    pub scheme: String,
    pub host: Option<String>,
    pub path: String,
    pub query: Option<String>,
    /// The URL as serialized after parsing.
    pub text: String,
}

/// The characters of an optional string.
pub open spec fn opt_chars(o: Option<String>) -> Option<Seq<char>> {
    match o {
        Some(s) => Some(s@),
        None => None,
    }
}

/// A parsed URL as plain values: scheme, host, path, query, serialization.
pub type UrlView = (Seq<char>, Option<Seq<char>>, Seq<char>, Option<Seq<char>>, Seq<char>);

/// The parts of a parsed URL as plain values.
pub open spec fn parts_view(p: UrlParts) -> UrlView {
    (p.scheme@, opt_chars(p.host), p.path@, opt_chars(p.query), p.text@)
}

/// What `url::Url::parse` gives for a text: the parts of the URL (scheme,
/// host, path, query, serialization), or the text of its error.
pub uninterp spec fn url_parse(input: Seq<char>) -> Result<UrlView, Seq<char>>;

/// Parses a URL with `url::Url::parse`. Claimed: the result is the named
/// parse of the input, read through `scheme`, `host_str`, `path`, `query`
/// and `as_str`, and an error is the `Display` text of the parse error.
#[verifier::external_body]
pub(crate) fn parse_url(input: &str) -> (r: Result<UrlParts, String>)
    ensures
        url_parse(input@) == match r {
            Ok(p) => Ok::<UrlView, Seq<char>>(parts_view(p)),
            Err(e) => Err::<UrlView, Seq<char>>(e@),
        },
{
    match url::Url::parse(input) {
        Ok(u) => Ok(UrlParts {
            scheme: u.scheme().to_string(),
            host: u.host_str().map(|h| h.to_string()),
            path: u.path().to_string(),
            query: u.query().map(|q| q.to_string()),
            text: u.as_str().to_string(),
        }),
        Err(e) => Err(e.to_string()),
    }
}

/// What `url::form_urlencoded::parse` decodes a query string to: its
/// name-value pairs, in order.
pub uninterp spec fn form_pairs(query: Seq<char>) -> Seq<(Seq<char>, Seq<char>)>;

/// Decodes the pairs of a query string with `url::form_urlencoded::parse`
/// on its bytes. Claimed: the pairs are the named decoding of the query.
#[verifier::external_body]
fn query_pairs(query: &str) -> (r: Vec<(String, String)>)
    ensures
        r@.map_values(|p: (String, String)| (p.0@, p.1@)) == form_pairs(query@),
{
    url::form_urlencoded::parse(query.as_bytes()).map(|(k, v)| (k.into_owned(), v.into_owned())).collect()
}

/// A navigation notice: the address the content page went to and how
/// (`push`, `replace`, `pop`, `load`).
#[derive(Debug)]
pub struct NavPayload {
    pub url: String,
    pub action: String,
}

/// The address and action that query pairs give: the last `url` and the
/// last `action` pair, or the empty address and `push` where there is
/// none.
pub open spec fn nav_params(pairs: Seq<(Seq<char>, Seq<char>)>) -> (Seq<char>, Seq<char>)
    decreases pairs.len(),
{
    if pairs.len() == 0 {
        (Seq::empty(), "push"@)
    } else {
        let (u, a) = nav_params(pairs.drop_last());
        let (k, v) = pairs.last();
        if k == "url"@ {
            (v, a)
        } else if k == "action"@ {
            (u, v)
        } else {
            (u, a)
        }
    }
}

/// The navigation notice that a `__nav__` request's query carries.
pub open spec fn nav_notice(query: Option<Seq<char>>) -> (Seq<char>, Seq<char>) {
    match query {
        Some(q) => nav_params(form_pairs(q)),
        None => (Seq::empty(), "push"@),
    }
}

/// Whether `s` has exactly the characters of `p`.
fn same_text(s: &str, p: &str) -> (r: bool)
    ensures
        r == (s@ == p@),
{
    let v = chars_of(s);
    let r = crate::text::range_equals(v.as_slice(), 0, v.len(), p);
    assert(v@.subrange(0, v@.len() as int) =~= v@);
    r
}

/// The navigation notice of a `__nav__` request with this query.
pub fn nav_from_query(query: Option<&str>) -> (r: NavPayload)
    ensures
        (r.url@, r.action@) == nav_notice(
            match query {
                Some(q) => Some(q@),
                None => None,
            },
        ),
{
    let mut url = String::new();
    let mut action = "push".to_owned();
    if let Some(q) = query {
        let pairs = query_pairs(q);
        let ghost ps = pairs@.map_values(|p: (String, String)| (p.0@, p.1@));
        let mut i: usize = 0;
        while i < pairs.len()
            invariant
                ps == pairs@.map_values(|p: (String, String)| (p.0@, p.1@)),
                ps == form_pairs(q@),
                i <= pairs@.len(),
                (url@, action@) == nav_params(ps.take(i as int)),
            decreases pairs@.len() - i,
        {
            let (k, v) = &pairs[i];
            assert(ps.take(i + 1).drop_last() =~= ps.take(i as int));
            assert(ps.take(i + 1).last() == (k@, v@));
            if same_text(k.as_str(), "url") {
                url = v.clone();
            } else if same_text(k.as_str(), "action") {
                action = v.clone();
            }
            i = i + 1;
        }
        assert(ps.take(pairs@.len() as int) =~= ps);
    } else {
        assert(url@ =~= Seq::<char>::empty());
    }
    NavPayload { url, action }
}


/// The address of the reader's home page.
pub fn get_base_url() -> (r: String)
    ensures
        r@ == "sneaker://home/"@,
{
    "sneaker://home/".to_owned()
}

/// The address a content path stands for: a `sneaker://` address as it
/// is, any other path on the home page (with a `/` put in front when it
/// lacks one).
pub open spec fn content_address(path: Seq<char>) -> Seq<char> {
    if occurs_at(path, 0, "sneaker://"@) {
        path
    } else if occurs_at(path, 0, "/"@) {
        "sneaker://home"@ + path
    } else {
        "sneaker://home/"@ + path
    }
}

/// The `http://<host>.localhost` address that serves a `sneaker://` URL:
/// its host (`home` when it has none), path and query.
pub open spec fn localhost_address(u: UrlView) -> Seq<char> {
    let host = match u.1 {
        Some(h) => h,
        None => "home"@,
    };
    let pq = match u.3 {
        Some(q) => u.2 + "?"@ + q,
        None => u.2,
    };
    "http://"@ + host + ".localhost"@ + pq
}

/// Where the content view is sent for a path: the parsed content address,
/// and, where the custom scheme is served through localhost (`windows`), a
/// `sneaker` URL parsed again in its localhost form. A content address
/// that does not parse is the error `invalid URL: <cause>`.
pub open spec fn content_target(path: Seq<char>, windows: bool) -> Result<UrlView, Seq<char>> {
    match url_parse(content_address(path)) {
        Err(e) => Err("invalid URL: "@ + e),
        Ok(u) => if windows && u.0 == "sneaker"@ {
            url_parse(localhost_address(u))
        } else {
            Ok(u)
        },
    }
}

/// The `http://<host>.localhost` address for a parsed `sneaker://` URL.
fn localhost_address_of(u: &UrlParts) -> (r: String)
    ensures
        r@ == localhost_address(parts_view(*u)),
{
    let mut r = "http://".to_owned();
    match &u.host {
        Some(h) => r.append(h.as_str()),
        None => r.append("home"),
    }
    r.append(".localhost");
    r.append(u.path.as_str());
    if let Some(q) = &u.query {
        r.append("?");
        r.append(q.as_str());
    }
    assert(r@ =~= localhost_address(parts_view(*u)));
    r
}

/// Where the content view is sent for a path.
pub fn navigate_target(path: &str, windows: bool) -> (r: Result<UrlParts, String>)
    ensures
        content_target(path@, windows) == match r {
            Ok(p) => Ok::<UrlView, Seq<char>>(parts_view(p)),
            Err(e) => Err::<UrlView, Seq<char>>(e@),
        },
{
    let v = chars_of(path);
    let address = if matches_str_at(v.as_slice(), 0, "sneaker://") {
        path.to_owned()
    } else if matches_str_at(v.as_slice(), 0, "/") {
        let mut a = "sneaker://home".to_owned();
        a.append(path);
        a
    } else {
        let mut a = "sneaker://home/".to_owned();
        a.append(path);
        a
    };
    assert(address@ == content_address(path@));
    match parse_url(address.as_str()) {
        Err(e) => {
            let mut m = "invalid URL: ".to_owned();
            m.append(e.as_str());
            Err(m)
        },
        Ok(u) => {
            if windows && same_text(u.scheme.as_str(), "sneaker") {
                let a = localhost_address_of(&u);
                parse_url(a.as_str())
            } else {
                Ok(u)
            }
        },
    }
}

/// Where a link opened as a new window is sent instead, where the custom
/// scheme is served through localhost: the localhost form of a `sneaker`
/// URL when it parses; `None` (keep the link) otherwise.
pub open spec fn new_window_address(target: Seq<char>, windows: bool) -> Option<Seq<char>> {
    if !windows {
        None
    } else {
        match url_parse(target) {
            Ok(u) => if u.0 == "sneaker"@ {
                match url_parse(localhost_address(u)) {
                    Ok(x) => Some(x.4),
                    Err(_) => None,
                }
            } else {
                None
            },
            Err(_) => None,
        }
    }
}

/// Where a link opened as a new window is sent instead, if anywhere.
pub fn new_window_target(target: &str, windows: bool) -> (r: Option<String>)
    ensures
        new_window_address(target@, windows) == match r {
            Some(s) => Some(s@),
            None => None::<Seq<char>>,
        },
{
    if !windows {
        return None;
    }
    match parse_url(target) {
        Ok(u) => {
            if same_text(u.scheme.as_str(), "sneaker") {
                let a = localhost_address_of(&u);
                match parse_url(a.as_str()) {
                    Ok(x) => Some(x.text),
                    Err(_) => None,
                }
            } else {
                None
            }
        },
        Err(_) => None,
    }
}

/// What a request to `http://*.localhost` is served with.
#[derive(Clone, Copy, PartialEq, Eq, Debug)]
pub enum LocalhostKind {
    /// Not a request of the reader's: left to the view.
    Ignore,
    /// A navigation notice (host `__nav__.localhost`).
    Nav,
    /// The progress page.
    ProgressPage,
    /// The progress status document.
    ProgressApi,
    /// A bundled asset of the home page (`path` is the asset key).
    Asset,
    /// A page of the home page, rendered by the store.
    Frontpage,
    /// A file of the space `host`.
    Subspace,
}

/// The route of a request to `http://*.localhost`.
#[derive(Debug)]
pub struct LocalhostRoute {
    pub kind: LocalhostKind,
    pub host: String,
    pub path: String,
    pub query: Option<String>,
}

/// The route of a request to `http://*.localhost` with this address, with
/// the subdomain, the path (or asset key) and the query it is served for.
/// Addresses that do not parse, are not `http`, or whose host does not end
/// in `.localhost` are ignored, and so is the `ipc` subdomain.
pub open spec fn localhost_route(uri: Seq<char>) -> (
    LocalhostKind,
    Seq<char>,
    Seq<char>,
    Option<Seq<char>>,
) {
    match url_parse(uri) {
        Err(_) => (LocalhostKind::Ignore, Seq::empty(), Seq::empty(), None),
        Ok(u) => {
            let host = match u.1 {
                Some(h) => h,
                None => Seq::empty(),
            };
            if u.0 != "http"@ || !ends_with(host, ".localhost"@) {
                (LocalhostKind::Ignore, Seq::empty(), Seq::empty(), None)
            } else {
                let sub = host.subrange(0, host.len() - ".localhost"@.len());
                let path = u.2;
                let front = sub.len() == 0 || sub == "sneaker"@ || sub == "home"@;
                if sub == "__nav__"@ {
                    (LocalhostKind::Nav, sub, path, u.3)
                } else if sub == "ipc"@ {
                    (LocalhostKind::Ignore, sub, path, u.3)
                } else if front && path == "/__progress__"@ {
                    (LocalhostKind::ProgressPage, sub, path, u.3)
                } else if front && path == "/__progress_api__"@ {
                    (LocalhostKind::ProgressApi, sub, path, u.3)
                } else if front && is_localhost_asset(path) {
                    (LocalhostKind::Asset, sub, trim_start_char(path, '/'), u.3)
                } else if front {
                    (LocalhostKind::Frontpage, sub, path, u.3)
                } else if is_hash(sub) {
                    (LocalhostKind::Subspace, sub, path, u.3)
                } else {
                    (LocalhostKind::Ignore, sub, path, u.3)
                }
            }
        },
    }
}

/// Only the home page's subdomains (none, `sneaker`, `home`) are served
/// from the bundled assets: a request to any other subdomain never is.
pub proof fn lemma_localhost_assets_only_for_home(uri: Seq<char>)
    ensures
        localhost_route(uri).0 == LocalhostKind::Asset ==> localhost_route(uri).1 == Seq::<
            char,
        >::empty() || localhost_route(uri).1 == "sneaker"@ || localhost_route(uri).1 == "home"@,
{
}

/// An `http` request whose host is a space hash followed by `.localhost`
/// is routed to that space, with the path and query as parsed, whatever
/// the path names (a stylesheet or image of the space included).
pub proof fn lemma_localhost_hash_is_subspace(uri: Seq<char>, u: UrlView, h: Seq<char>)
    requires
        url_parse(uri) == Ok::<UrlView, Seq<char>>(u),
        u.0 == "http"@,
        u.1 == Some(h + ".localhost"@),
        h.len() == 64,
        forall|k: int| 0 <= k < 64 ==> crate::text::is_hex(#[trigger] h[k]),
    ensures
        localhost_route(uri) == (LocalhostKind::Subspace, h, u.2, u.3),
{
    reveal_strlit(".localhost");
    reveal_strlit("__nav__");
    reveal_strlit("ipc");
    reveal_strlit("sneaker");
    reveal_strlit("home");
    let host = h + ".localhost"@;
    assert(host.subrange(host.len() - ".localhost"@.len(), host.len() as int) =~= ".localhost"@);
    assert(ends_with(host, ".localhost"@));
    assert(host.subrange(0, host.len() - ".localhost"@.len()) =~= h);
    assert(h != "__nav__"@);
    assert(h != "ipc"@);
    assert(h != "sneaker"@);
    assert(h != "home"@);
    assert(h.len() != 0);
    assert(is_hash(h));
}

/// The route of a request to `http://*.localhost`.
pub fn route_localhost_request(uri: &str) -> (r: LocalhostRoute)
    ensures
        localhost_route(uri@) == (r.kind, r.host@, r.path@, opt_chars(r.query)),
        r.kind == LocalhostKind::Asset ==> r.host@ == Seq::<char>::empty() || r.host@ == "sneaker"@
            || r.host@ == "home"@,
{
    proof {
        lemma_localhost_assets_only_for_home(uri@);
    }
    let ignore = LocalhostRoute {
        kind: LocalhostKind::Ignore,
        host: String::new(),
        path: String::new(),
        query: None,
    };
    let u = match parse_url(uri) {
        Ok(u) => u,
        Err(_) => {
            return ignore;
        },
    };
    let host = match &u.host {
        Some(h) => h.clone(),
        None => String::new(),
    };
    let hv = chars_of(host.as_str());
    let n = hv.len();
    let suffix = chars_of(".localhost");
    proof {
        reveal_strlit(".localhost");
    }
    let is_local = suffix.len() <= n && crate::text::range_equals(
        hv.as_slice(),
        n - suffix.len(),
        n,
        ".localhost",
    );
    if !same_text(u.scheme.as_str(), "http") || !is_local {
        return ignore;
    }
    let sub = crate::text::string_of(hv.as_slice(), 0, n - suffix.len());
    let sv = chars_of(sub.as_str());
    let pv = chars_of(u.path.as_str());
    let front = sv.len() == 0 || same_text(sub.as_str(), "sneaker") || same_text(
        sub.as_str(),
        "home",
    );
    let kind = if same_text(sub.as_str(), "__nav__") {
        LocalhostKind::Nav
    } else if same_text(sub.as_str(), "ipc") {
        LocalhostKind::Ignore
    } else if front && same_text(u.path.as_str(), "/__progress__") {
        LocalhostKind::ProgressPage
    } else if front && same_text(u.path.as_str(), "/__progress_api__") {
        LocalhostKind::ProgressApi
    } else if front && localhost_asset(pv.as_slice()) {
        let key = trim_start_char_of(pv.as_slice(), '/');
        return LocalhostRoute {
            kind: LocalhostKind::Asset,
            host: sub,
            path: string_of_all(key),
            query: u.query,
        };
    } else if front {
        LocalhostKind::Frontpage
    } else if is_hash_text(sv.as_slice()) {
        LocalhostKind::Subspace
    } else {
        LocalhostKind::Ignore
    };
    LocalhostRoute { kind, host: sub, path: u.path, query: u.query }
}

} // verus!
