//! The responses the reader serves for each route and each answer of the
//! store: status, headers and body, with served text rewritten to point
//! back into the reader.
use vstd::prelude::*;
use vstd::string::*;
use vstd::utf8::encode_utf8;
use vstd::slice::slice_to_vec;
use crate::rewrite::{UrlStyle, rewrite_urls, is_rewritable, rewrite_links, utf8_lossy};
use vstd::utf8::{valid_utf8, decode_utf8};
use crate::progress::{ImportState, progress_api_json, progress_api_text};

verus! {

/// A response of the `sneaker://` scheme.
#[derive(Debug)]
pub struct HttpReply {
    pub status: u16,
    pub headers: Vec<(String, String)>,
    pub body: Vec<u8>,
}

/// The headers of a reply as plain values.
pub open spec fn headers_view(h: Seq<(String, String)>) -> Seq<(Seq<char>, Seq<char>)> {
    h.map_values(|p: (String, String)| (p.0@, p.1@))
}

/// A reply as plain values.
pub open spec fn reply_view(r: HttpReply) -> (u16, Seq<(Seq<char>, Seq<char>)>, Seq<u8>) {
    (r.status, headers_view(r.headers@), r.body@)
}

/// The UTF-8 bytes of a string.
fn bytes_of(s: &str) -> (r: Vec<u8>)
    ensures
        r@ == encode_utf8(s@),
{
    slice_to_vec(s.as_bytes())
}

/// A header.
fn header(name: &str, value: &str) -> (r: (String, String))
    ensures
        r.0@ == name@,
        r.1@ == value@,
{
    (name.to_owned(), value.to_owned())
}

/// A reply with no headers and a text body.
fn text_reply(status: u16, body: &str) -> (r: HttpReply)
    ensures
        reply_view(r) == (status, Seq::<(Seq<char>, Seq<char>)>::empty(), encode_utf8(body@)),
{
    let r = HttpReply { status, headers: Vec::new(), body: bytes_of(body) };
    assert(headers_view(r.headers@) =~= Seq::<(Seq<char>, Seq<char>)>::empty());
    r
}

/// The reply to a navigation notice: `200`, open to any origin, empty.
pub fn nav_reply() -> (r: HttpReply)
    ensures
        reply_view(r) == (
            200u16,
            seq![("Access-Control-Allow-Origin"@, "*"@)],
            Seq::<u8>::empty(),
        ),
{
    let mut headers = Vec::new();
    headers.push(header("Access-Control-Allow-Origin", "*"));
    let r = HttpReply { status: 200, headers, body: Vec::new() };
    assert(headers_view(r.headers@) =~= seq![("Access-Control-Allow-Origin"@, "*"@)]);
    r
}

/// The reply for the progress page: the bundled page as HTML, or `500`
/// with a plain-text notice when it is not bundled.
pub fn progress_page_reply(page: Option<Vec<u8>>) -> (r: HttpReply)
    ensures
        page matches Some(b) ==> reply_view(r) == (200u16, seq![("Content-Type"@, "text/html"@)], b@),
        page is None ==> reply_view(r) == (
            500u16,
            seq![("Content-Type"@, "text/plain"@)],
            encode_utf8("Failed to read progress.html: Not found in assets"@),
        ),
{
    let mut headers = Vec::new();
    match page {
        Some(b) => {
            headers.push(header("Content-Type", "text/html"));
            let r = HttpReply { status: 200, headers, body: b };
            assert(headers_view(r.headers@) =~= seq![("Content-Type"@, "text/html"@)]);
            r
        },
        None => {
            headers.push(header("Content-Type", "text/plain"));
            let r = HttpReply {
                status: 500,
                headers,
                body: bytes_of("Failed to read progress.html: Not found in assets"),
            };
            assert(headers_view(r.headers@) =~= seq![("Content-Type"@, "text/plain"@)]);
            r
        },
    }
}

/// The reply for the progress status document of `st`.
pub fn progress_api_reply(st: &ImportState) -> (r: HttpReply)
    ensures
        reply_view(r) == (
            200u16,
            seq![("Content-Type"@, "application/json"@)],
            encode_utf8(progress_api_text(*st)),
        ),
{
    let json = progress_api_json(st);
    let mut headers = Vec::new();
    headers.push(header("Content-Type", "application/json"));
    let r = HttpReply { status: 200, headers, body: bytes_of(json.as_str()) };
    assert(headers_view(r.headers@) =~= seq![("Content-Type"@, "application/json"@)]);
    r
}

/// The reply for a bundled asset of the home page: the asset with its
/// type, or an empty `404`.
pub fn frontpage_asset_reply(asset: Option<(String, Vec<u8>)>) -> (r: HttpReply)
    ensures
        asset matches Some(a) ==> reply_view(r) == (200u16, seq![("Content-Type"@, a.0@)], a.1@),
        asset is None ==> reply_view(r) == (
            404u16,
            Seq::<(Seq<char>, Seq<char>)>::empty(),
            Seq::<u8>::empty(),
        ),
{
    match asset {
        Some((mime, bytes)) => {
            let mut headers = Vec::new();
            let ghost m = mime@;
            headers.push(("Content-Type".to_owned(), mime));
            let r = HttpReply { status: 200, headers, body: bytes };
            assert(headers_view(r.headers@) =~= seq![("Content-Type"@, m)]);
            r
        },
        None => {
            let r = HttpReply { status: 404, headers: Vec::new(), body: Vec::new() };
            assert(headers_view(r.headers@) =~= Seq::<(Seq<char>, Seq<char>)>::empty());
            r
        },
    }
}

/// The reply for a host that is neither a space nor the home page: `400`
/// with `Invalid host: <host>`.
pub fn invalid_host_reply(host: &str) -> (r: HttpReply)
    ensures
        reply_view(r) == (
            400u16,
            Seq::<(Seq<char>, Seq<char>)>::empty(),
            encode_utf8("Invalid host: "@ + host@),
        ),
{
    let mut t = "Invalid host: ".to_owned();
    t.append(host);
    text_reply(400, t.as_str())
}


/// What the store answered to a request for a file of a space.
#[derive(Debug)]
pub enum StoreReply {
    /// The file, with its content type and entity tag.
    Found { mime: String, bytes: Vec<u8>, etag: String },
    /// No such file.
    Missing,
    /// The store failed, with the cause.
    Failed(String),
    /// The store did not answer in time.
    TimedOut,
    /// The store could not be asked.
    Disconnected,
}

/// What to do after an answer of the store while looking up a file.
#[derive(Debug)]
pub enum LookupStep {
    /// Ask for the next candidate path.
    Next,
    /// Answer the request with this reply.
    Reply(HttpReply),
}

/// The served form of a body: its text with links rewritten when its type
/// is rewritable text, as it is otherwise.
pub open spec fn served_body(body: Seq<u8>, mime: Seq<char>, style: UrlStyle) -> Seq<u8> {
    if is_rewritable(mime) {
        encode_utf8(rewrite_links(utf8_lossy(body), style))
    } else {
        body
    }
}

/// For a found file of rewritable type whose bytes are valid UTF-8, its
/// served body: the plainly decoded text with links rewritten, encoded back.
pub open spec fn valid_text_body(reply: StoreReply, style: UrlStyle) -> Option<Seq<u8>> {
    match reply {
        StoreReply::Found { mime, bytes, etag } => if is_rewritable(mime@) && valid_utf8(bytes@) {
            Some(encode_utf8(rewrite_links(decode_utf8(bytes@), style)))
        } else {
            None
        },
        _ => None,
    }
}

/// What an answer of the store leads to in a `sneaker://` space lookup: a
/// found file is served (`200`, its type, entity tag, open to any origin,
/// links rewritten); a missing one moves on to the next candidate; a failure
/// is `503 Store busy: <cause>`, a timeout `503 Store busy (timeout)`, an
/// unreachable store `500 Store thread died`.
pub open spec fn lookup_step_view(reply: StoreReply, style: UrlStyle) -> Option<
    (u16, Seq<(Seq<char>, Seq<char>)>, Seq<u8>),
> {
    match reply {
        StoreReply::Found { mime, bytes, etag } => Some(
            (
                200u16,
                seq![
                    ("Content-Type"@, mime@),
                    ("ETag"@, etag@),
                    ("Access-Control-Allow-Origin"@, "*"@),
                ],
                served_body(bytes@, mime@, style),
            ),
        ),
        StoreReply::Missing => None,
        StoreReply::Failed(e) => Some(
            (503u16, Seq::empty(), encode_utf8("Store busy: "@ + e@)),
        ),
        StoreReply::TimedOut => Some(
            (503u16, Seq::empty(), encode_utf8("Store busy (timeout)"@)),
        ),
        StoreReply::Disconnected => Some(
            (500u16, Seq::empty(), encode_utf8("Store thread died"@)),
        ),
    }
}

/// What an answer of the store leads to in a `sneaker://` space lookup.
pub fn subspace_lookup_step(reply: StoreReply, style: UrlStyle) -> (r: LookupStep)
    ensures
        lookup_step_view(reply, style) == match r {
            LookupStep::Next => None,
            LookupStep::Reply(x) => Some(reply_view(x)),
        },
        valid_text_body(reply, style) matches Some(b) ==> (r matches LookupStep::Reply(x) && x.body@
            == b),        reply is Found && !is_rewritable(reply->mime@) ==> (r matches LookupStep::Reply(x) && x.body@
            == reply->bytes@),
        reply is Found && is_rewritable(reply->mime@) ==> (r matches LookupStep::Reply(x) && x.body@
            == encode_utf8(rewrite_links(utf8_lossy(reply->bytes@), style))),
{
    match reply {
        StoreReply::Found { mime, bytes, etag } => {
            let body = rewrite_urls(bytes.as_slice(), mime.as_str(), style);
            let ghost m = mime@;
            let ghost e = etag@;
            let mut headers = Vec::new();
            headers.push(("Content-Type".to_owned(), mime));
            headers.push(("ETag".to_owned(), etag));
            headers.push(header("Access-Control-Allow-Origin", "*"));
            let r = HttpReply { status: 200, headers, body };
            assert(headers_view(r.headers@) =~= seq![
                ("Content-Type"@, m),
                ("ETag"@, e),
                ("Access-Control-Allow-Origin"@, "*"@),
            ]);
            LookupStep::Reply(r)
        },
        StoreReply::Missing => LookupStep::Next,
        StoreReply::Failed(e) => {
            let mut t = "Store busy: ".to_owned();
            t.append(e.as_str());
            LookupStep::Reply(text_reply(503, t.as_str()))
        },
        StoreReply::TimedOut => LookupStep::Reply(text_reply(503, "Store busy (timeout)")),
        StoreReply::Disconnected => LookupStep::Reply(text_reply(500, "Store thread died")),
    }
}

/// The reply when no candidate path of a space lookup was found: `404`
/// with `Not found`.
pub fn subspace_not_found_reply() -> (r: HttpReply)
    ensures
        reply_view(r) == (
            404u16,
            Seq::<(Seq<char>, Seq<char>)>::empty(),
            encode_utf8("Not found"@),
        ),
{
    text_reply(404, "Not found")
}

/// What the store answered to a request to render a home page.
#[derive(Debug)]
pub enum FrontpageReply {
    /// The rendered page.
    Rendered(String),
    /// The store failed, with the cause.
    Failed(String),
    /// The store did not answer in time.
    TimedOut,
    /// The store could not be asked.
    Disconnected,
}

/// The content type of rendered home pages.
pub open spec fn html_type() -> Seq<char> {
    "text/html; charset=utf-8"@
}

/// The reply for a home page: the rendered page as HTML, open to any
/// origin, with links rewritten; the same failures as for a space lookup.
pub open spec fn frontpage_reply_view(reply: FrontpageReply, style: UrlStyle) -> (
    u16,
    Seq<(Seq<char>, Seq<char>)>,
    Seq<u8>,
) {
    match reply {
        FrontpageReply::Rendered(html) => (
            200u16,
            seq![("Content-Type"@, html_type()), ("Access-Control-Allow-Origin"@, "*"@)],
            encode_utf8(rewrite_links(html@, style)),
        ),
        FrontpageReply::Failed(e) => (503u16, Seq::empty(), encode_utf8("Store busy: "@ + e@)),
        FrontpageReply::TimedOut => (503u16, Seq::empty(), encode_utf8("Store busy (timeout)"@)),
        FrontpageReply::Disconnected => (500u16, Seq::empty(), encode_utf8("Store thread died"@)),
    }
}

/// The reply for a home page.
pub fn frontpage_reply(reply: FrontpageReply, style: UrlStyle) -> (r: HttpReply)
    ensures
        reply_view(r) == frontpage_reply_view(reply, style),
{
    match reply {
        FrontpageReply::Rendered(html) => {
            proof {
                vstd::utf8::encode_utf8_valid_utf8(html@);
                vstd::utf8::encode_utf8_decode_utf8(html@);
                reveal_strlit("text/html; charset=utf-8");
                reveal_strlit("text/html");
                assert(html_type().subrange(0, 9) =~= "text/html"@);
                assert(crate::text::occurs_at(html_type(), 0, "text/html"@));
                assert(is_rewritable(html_type()));
            }
            let body = rewrite_urls(html.as_str().as_bytes(), "text/html; charset=utf-8", style);
            let mut headers = Vec::new();
            headers.push(header("Content-Type", "text/html; charset=utf-8"));
            headers.push(header("Access-Control-Allow-Origin", "*"));
            let r = HttpReply { status: 200, headers, body };
            assert(headers_view(r.headers@) =~= seq![
                ("Content-Type"@, html_type()),
                ("Access-Control-Allow-Origin"@, "*"@),
            ]);
            r
        },
        FrontpageReply::Failed(e) => {
            let mut t = "Store busy: ".to_owned();
            t.append(e.as_str());
            text_reply(503, t.as_str())
        },
        FrontpageReply::TimedOut => text_reply(503, "Store busy (timeout)"),
        FrontpageReply::Disconnected => text_reply(500, "Store thread died"),
    }
}


/// A response served through the `http://*.localhost` filter: status,
/// reason phrase, header block and body.
#[derive(Debug)]
pub struct WebReply {
    pub status: i32,
    pub reason: String,
    pub headers: String,
    pub body: Vec<u8>,
}

/// A localhost reply as plain values.
pub open spec fn web_view(r: WebReply) -> (i32, Seq<char>, Seq<char>, Seq<u8>) {
    (r.status, r.reason@, r.headers@, r.body@)
}

/// A localhost reply.
fn web_reply(status: i32, reason: &str, headers: &str, body: Vec<u8>) -> (r: WebReply)
    ensures
        web_view(r) == (status, reason@, headers@, body@),
{
    WebReply { status, reason: reason.to_owned(), headers: headers.to_owned(), body }
}

/// The header block that opens a localhost reply to any origin.
pub open spec fn any_origin() -> Seq<char> {
    "Access-Control-Allow-Origin: *\r\n"@
}

/// The empty `404 Not Found` of the localhost filter.
pub fn localhost_not_found() -> (r: WebReply)
    ensures
        web_view(r) == (404i32, "Not Found"@, ""@, Seq::<u8>::empty()),
{
    web_reply(404, "Not Found", "", Vec::new())
}

/// The localhost reply to a navigation notice.
pub fn localhost_nav_reply() -> (r: WebReply)
    ensures
        web_view(r) == (200i32, "OK"@, any_origin(), Seq::<u8>::empty()),
{
    web_reply(200, "OK", "Access-Control-Allow-Origin: *\r\n", Vec::new())
}

/// The localhost reply for the progress page: the bundled page as HTML,
/// or `404 Not Found`.
pub fn localhost_progress_page_reply(page: Option<Vec<u8>>) -> (r: WebReply)
    ensures
        page matches Some(b) ==> web_view(r) == (
            200i32,
            "OK"@,
            "Content-Type: text/html; charset=utf-8\r\n"@ + any_origin(),
            b@,
        ),
        page is None ==> web_view(r) == (404i32, "Not Found"@, ""@, Seq::<u8>::empty()),
{
    match page {
        Some(b) => {
            let r = web_reply(
                200,
                "OK",
                "Content-Type: text/html; charset=utf-8\r\nAccess-Control-Allow-Origin: *\r\n",
                b,
            );
            proof {
                reveal_strlit(
                    "Content-Type: text/html; charset=utf-8\r\nAccess-Control-Allow-Origin: *\r\n",
                );
                reveal_strlit("Content-Type: text/html; charset=utf-8\r\n");
                reveal_strlit("Access-Control-Allow-Origin: *\r\n");
                assert(r.headers@ =~= "Content-Type: text/html; charset=utf-8\r\n"@ + any_origin());
            }
            r
        },
        None => localhost_not_found(),
    }
}

/// The localhost reply for the progress status document of `st`.
pub fn localhost_progress_api_reply(st: &ImportState) -> (r: WebReply)
    ensures
        web_view(r) == (
            200i32,
            "OK"@,
            "Content-Type: application/json\r\n"@ + any_origin(),
            encode_utf8(progress_api_text(*st)),
        ),
{
    let json = progress_api_json(st);
    let mut h = "Content-Type: application/json\r\n".to_owned();
    h.append("Access-Control-Allow-Origin: *\r\n");
    web_reply(200, "OK", h.as_str(), bytes_of(json.as_str()))
}

/// The localhost reply for a bundled asset of the home page: the asset
/// with its type, or `404 Not Found`.
pub fn localhost_asset_reply(asset: Option<(String, Vec<u8>)>) -> (r: WebReply)
    ensures
        asset matches Some(a) ==> web_view(r) == (
            200i32,
            "OK"@,
            "Content-Type: "@ + a.0@ + "\r\n"@ + any_origin(),
            a.1@,
        ),
        asset is None ==> web_view(r) == (404i32, "Not Found"@, ""@, Seq::<u8>::empty()),
{
    match asset {
        Some((mime, bytes)) => {
            let mut h = "Content-Type: ".to_owned();
            h.append(mime.as_str());
            h.append("\r\n");
            h.append("Access-Control-Allow-Origin: *\r\n");
            web_reply(200, "OK", h.as_str(), bytes)
        },
        None => localhost_not_found(),
    }
}

/// The localhost reply for a home page: the rendered page as HTML with
/// links rewritten; `503 Service Unavailable` (retry after 5 seconds) when
/// the store failed or did not answer; no reply when it could not be asked.
pub open spec fn localhost_frontpage_view(reply: FrontpageReply, style: UrlStyle) -> Option<
    (i32, Seq<char>, Seq<char>, Seq<u8>),
> {
    match reply {
        FrontpageReply::Rendered(html) => Some(
            (
                200i32,
                "OK"@,
                "Content-Type: text/html; charset=utf-8\r\n"@ + any_origin(),
                encode_utf8(rewrite_links(html@, style)),
            ),
        ),
        FrontpageReply::Disconnected => None,
        _ => Some(
            (503i32, "Service Unavailable"@, "Retry-After: 5\r\n"@ + any_origin(), Seq::empty()),
        ),
    }
}

/// The localhost reply for a home page.
pub fn localhost_frontpage_reply(reply: FrontpageReply, style: UrlStyle) -> (r: Option<WebReply>)
    ensures
        localhost_frontpage_view(reply, style) == match r {
            Some(x) => Some(web_view(x)),
            None => None,
        },
        reply is Rendered ==> (r matches Some(x) && x.status == 200 && x.body@ == encode_utf8(
            rewrite_links(reply->Rendered_0@, style),
        )),
{
    match reply {
        FrontpageReply::Rendered(html) => {
            let page = frontpage_reply(FrontpageReply::Rendered(html), style);
            let mut h = "Content-Type: text/html; charset=utf-8\r\n".to_owned();
            h.append("Access-Control-Allow-Origin: *\r\n");
            Some(web_reply(200, "OK", h.as_str(), page.body))
        },
        FrontpageReply::Disconnected => None,
        _ => {
            let mut h = "Retry-After: 5\r\n".to_owned();
            h.append("Access-Control-Allow-Origin: *\r\n");
            Some(web_reply(503, "Service Unavailable", h.as_str(), Vec::new()))
        },
    }
}

/// What to do after an answer of the store in a localhost space lookup.
#[derive(Debug)]
pub enum LocalLookupStep {
    /// Ask for the next candidate path.
    Next,
    /// Give up: the lookup ends as not found.
    Stop,
    /// Answer the request with this reply.
    Reply(WebReply),
}

/// What an answer of the store leads to in a localhost space lookup: a
/// found file is served (`200 OK`, type, entity tag and origin header each
/// ending in `\n`, links rewritten); a missing one moves on to the next
/// candidate; anything else ends the lookup.
pub open spec fn local_lookup_view(reply: StoreReply, style: UrlStyle) -> Option<
    Option<(i32, Seq<char>, Seq<char>, Seq<u8>)>,
> {
    match reply {
        StoreReply::Found { mime, bytes, etag } => Some(
            Some(
                (
                    200i32,
                    "OK"@,
                    "Content-Type: "@ + mime@ + "\n"@ + "ETag: "@ + etag@ + "\n"@
                        + "Access-Control-Allow-Origin: *\n"@,
                    served_body(bytes@, mime@, style),
                ),
            ),
        ),
        StoreReply::Missing => None,
        _ => Some(None),
    }
}

/// What an answer of the store leads to in a localhost space lookup.
pub fn localhost_lookup_step(reply: StoreReply, style: UrlStyle) -> (r: LocalLookupStep)
    ensures
        local_lookup_view(reply, style) == match r {
            LocalLookupStep::Next => None,
            LocalLookupStep::Stop => Some(None),
            LocalLookupStep::Reply(x) => Some(Some(web_view(x))),
        },
        valid_text_body(reply, style) matches Some(b) ==> (r matches LocalLookupStep::Reply(x) && x.body@
            == b),        reply is Found && !is_rewritable(reply->mime@) ==> (r matches LocalLookupStep::Reply(x) && x.body@
            == reply->bytes@),
        reply is Found && is_rewritable(reply->mime@) ==> (r matches LocalLookupStep::Reply(x) && x.body@
            == encode_utf8(rewrite_links(utf8_lossy(reply->bytes@), style))),
{
    match reply {
        StoreReply::Found { mime, bytes, etag } => {
            let body = rewrite_urls(bytes.as_slice(), mime.as_str(), style);
            let mut h = "Content-Type: ".to_owned();
            h.append(mime.as_str());
            h.append("\n");
            h.append("ETag: ");
            h.append(etag.as_str());
            h.append("\n");
            h.append("Access-Control-Allow-Origin: *\n");
            LocalLookupStep::Reply(web_reply(200, "OK", h.as_str(), body))
        },
        StoreReply::Missing => LocalLookupStep::Next,
        _ => LocalLookupStep::Stop,
    }
}


/// A file found in a space is served with the same body through the
/// custom scheme and through localhost: the store's bytes exactly when its
/// type is not rewritable text, and otherwise its text, decoded leniently,
/// with links rewritten and encoded back.
pub proof fn lemma_found_file_body(mime: String, bytes: Vec<u8>, etag: String, style: UrlStyle)
    ensures
        lookup_step_view(StoreReply::Found { mime, bytes, etag }, style) matches Some(a) && local_lookup_view(
            StoreReply::Found { mime, bytes, etag },
            style,
        ) matches Some(Some(b)) && a.0 == 200 && b.0 == 200 && a.2 == b.3 && (!is_rewritable(mime@)
            ==> a.2 == bytes@) && (is_rewritable(mime@) ==> a.2 == encode_utf8(
            rewrite_links(utf8_lossy(bytes@), style),
        )),
{
}

/// A rendered home page is served with the same body through localhost as
/// through the custom scheme: the page with its links rewritten, encoded as
/// UTF-8.
pub proof fn lemma_rendered_home_page_body(html: String, style: UrlStyle)
    ensures
        localhost_frontpage_view(FrontpageReply::Rendered(html), style) matches Some(b) && b.0 == 200
            && b.3 == frontpage_reply_view(FrontpageReply::Rendered(html), style).2 && b.3
            == encode_utf8(rewrite_links(html@, style)),
{
}

} // verus!
