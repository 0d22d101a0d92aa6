//! Rewriting of links in served text so that they point back into the
//! reader: `http(s)://sneakerweb.localhost[:port][/path]` becomes the home
//! page and `http(s)://<64 hex>.localhost[:port][/path]` becomes the space
//! with that hash, in the URL style of the platform.
use vstd::prelude::*;
use vstd::utf8::*;
use vstd::string::*;
use vstd::slice::slice_to_vec;
use crate::text::{
    CharClass, in_class, is_digit, is_ascii_digit, occurs_at, span, lemma_span, scan_class,
    matches_str_at, chars_of, push_chars, contains, text_contains,
};

verus! {

/// How links into the reader are written.
#[derive(Clone, Copy, PartialEq, Eq, Debug)]
pub enum UrlStyle {
    /// `sneaker://<host><path>`, the custom scheme.
    CustomScheme,
    /// `http://<host>.localhost<path>`, used where the custom scheme is
    /// served through a localhost filter.
    LocalhostHttp,
}

/// `http://`
pub open spec fn http_scheme() -> Seq<char> {
    seq!['h', 't', 't', 'p', ':', '/', '/']
}

/// `https://`
pub open spec fn https_scheme() -> Seq<char> {
    seq!['h', 't', 't', 'p', 's', ':', '/', '/']
}

/// `sneakerweb.localhost`, the host of the home page.
pub open spec fn home_host() -> Seq<char> {
    seq![
        's', 'n', 'e', 'a', 'k', 'e', 'r', 'w', 'e', 'b', '.', 'l', 'o', 'c', 'a', 'l', 'h', 'o',
        's', 't',
    ]
}

/// `.localhost`
pub open spec fn localhost_suffix() -> Seq<char> {
    seq!['.', 'l', 'o', 'c', 'a', 'l', 'h', 'o', 's', 't']
}

/// The length of the scheme of a link at `i` (`http://` or `https://`),
/// zero where none starts there.
pub open spec fn scheme_len(s: Seq<char>, i: int) -> int {
    if occurs_at(s, i, http_scheme()) {
        7
    } else if occurs_at(s, i, https_scheme()) {
        8
    } else {
        0
    }
}

/// Whether all of `s[a..b]` is in `cls`.
pub open spec fn all_in(s: Seq<char>, a: int, b: int, cls: CharClass) -> bool {
    0 <= a <= b <= s.len() && forall|k: int| a <= k < b ==> in_class(cls, #[trigger] s[k])
}

/// The host of a link starting at `j`: whether it is the home page, and the
/// index just after `.localhost`.
pub open spec fn host_at(s: Seq<char>, j: int) -> Option<(bool, int)> {
    if occurs_at(s, j, home_host()) {
        Some((true, j + 20))
    } else if all_in(s, j, j + 64, CharClass::Hex) && occurs_at(s, j + 64, localhost_suffix()) {
        Some((false, j + 74))
    } else {
        None
    }
}

/// Past an optional `:<digits>` port at `k`.
pub open spec fn port_end(s: Seq<char>, k: int) -> int {
    if 0 <= k && k + 1 < s.len() && s[k] == ':' && is_digit(s[k + 1]) {
        span(s, k + 1, CharClass::Digit)
    } else {
        k
    }
}

/// Past an optional `/<path characters>` path at `m`.
pub open spec fn path_end(s: Seq<char>, m: int) -> int {
    if 0 <= m < s.len() && s[m] == '/' {
        span(s, m + 1, CharClass::LinkPath)
    } else {
        m
    }
}

/// The link that starts at `i`, if one does: whether its host is the home
/// page, where its host starts, where its path starts (after the port) and
/// where it ends.
pub open spec fn link_at(s: Seq<char>, i: int) -> Option<(bool, int, int, int)> {
    let n = scheme_len(s, i);
    if n == 0 {
        None
    } else {
        match host_at(s, i + n) {
            None => None,
            Some((home, h)) => {
                let p = port_end(s, h);
                Some((home, i + n, p, path_end(s, p)))
            },
        }
    }
}

/// What a link is rewritten to: the port is dropped, the path kept.
pub open spec fn link_target(style: UrlStyle, s: Seq<char>, m: (bool, int, int, int)) -> Seq<
    char,
> {
    let path = s.subrange(m.2, m.3);
    let space = s.subrange(m.1, m.1 + 64);
    match style {
        UrlStyle::CustomScheme => if m.0 {
            "sneaker://home"@ + path
        } else {
            "sneaker://"@ + space + path
        },
        UrlStyle::LocalhostHttp => if m.0 {
            "http://home.localhost"@ + path
        } else {
            "http://"@ + space + ".localhost"@ + path
        },
    }
}

/// A link found at `i` ends after `i`, within the text.
pub proof fn lemma_link_extent(s: Seq<char>, i: int)
    requires
        0 <= i,
    ensures
        link_at(s, i) matches Some(m) ==> i + 27 <= m.1 + 20 <= m.2 <= m.3 <= s.len() && m.1 == i
            + scheme_len(s, i) && (!m.0 ==> m.1 + 74 <= m.2),
{
    if let Some(m) = link_at(s, i) {
        let n = scheme_len(s, i);
        let h = host_at(s, i + n).unwrap().1;
        if 0 <= h && h + 1 < s.len() && s[h] == ':' && is_digit(s[h + 1]) {
            lemma_span(s, h + 1, CharClass::Digit);
        }
        let p = port_end(s, h);
        if 0 <= p < s.len() && s[p] == '/' {
            lemma_span(s, p + 1, CharClass::LinkPath);
        }
    }
}

/// The text from index `i` on with every link rewritten, scanning left to
/// right: where a link starts it is replaced and the scan goes on after it,
/// elsewhere the character is kept.
pub open spec fn rewrite_from(s: Seq<char>, style: UrlStyle, i: int) -> Seq<char>
    decreases s.len() - i,
{
    if i < 0 || i >= s.len() {
        Seq::empty()
    } else {
        match link_at(s, i) {
            Some(m) => {
                proof {
                    lemma_link_extent(s, i);
                }
                link_target(style, s, m) + rewrite_from(s, style, m.3)
            },
            None => seq![s[i]] + rewrite_from(s, style, i + 1),
        }
    }
}

/// The whole text with every link rewritten.
pub open spec fn rewrite_links(s: Seq<char>, style: UrlStyle) -> Seq<char> {
    rewrite_from(s, style, 0)
}


/// All of `s[a..b]` is in `cls` exactly when the scan from `a` gets to `b`.
proof fn lemma_all_in_span(s: Seq<char>, a: int, b: int, cls: CharClass)
    requires
        0 <= a <= b <= s.len(),
    ensures
        all_in(s, a, b, cls) <==> span(s, a, cls) >= b,
{
    lemma_span(s, a, cls);
}

/// The link that starts at `i` in `s`, if one does.
fn find_link(s: &[char], i: usize) -> (r: Option<(bool, usize, usize, usize)>)
    requires
        i <= s@.len(),
    ensures
        r matches Some(m) ==> link_at(s@, i as int) == Some((m.0, m.1 as int, m.2 as int, m.3 as int)),
        r is None ==> link_at(s@, i as int) is None,
{
    proof {
        reveal_strlit("http://");
        reveal_strlit("https://");
        reveal_strlit("sneakerweb.localhost");
        reveal_strlit(".localhost");
        assert("http://"@ =~= http_scheme());
        assert("https://"@ =~= https_scheme());
        assert("sneakerweb.localhost"@ =~= home_host());
        assert(".localhost"@ =~= localhost_suffix());
    }
    let len = s.len();
    let n: usize = if matches_str_at(s, i, "http://") {
        7
    } else if matches_str_at(s, i, "https://") {
        8
    } else {
        return None;
    };
    let j = i + n;
    let home: bool;
    let h: usize;
    if matches_str_at(s, j, "sneakerweb.localhost") {
        home = true;
        h = j + 20;
    } else if s.len() - j >= 64 && scan_class(s, j, &CharClass::Hex) >= j + 64 && matches_str_at(
        s,
        j + 64,
        ".localhost",
    ) {
        proof {
            lemma_all_in_span(s@, j as int, j + 64, CharClass::Hex);
        }
        home = false;
        h = j + 74;
    } else {
        proof {
            if s@.len() - j >= 64 {
                lemma_all_in_span(s@, j as int, j + 64, CharClass::Hex);
            }
        }
        return None;
    }
    let mut p = h;
    if h < len && h + 1 < len && s[h] == ':' && is_ascii_digit(s[h + 1]) {
        p = scan_class(s, h + 1, &CharClass::Digit);
    }
    proof {
        if h + 1 < s@.len() && s@[h as int] == ':' && is_digit(s@[h + 1]) {
            lemma_span(s@, h + 1, CharClass::Digit);
        }
    }
    let mut e = p;
    if p < s.len() && s[p] == '/' {
        e = scan_class(s, p + 1, &CharClass::LinkPath);
    }
    Some((home, j, p, e))
}

/// Appends the rewritten form of link `m` of `s` to `out`.
fn push_link_target(out: &mut String, style: UrlStyle, s: &[char], m: (bool, usize, usize, usize))
    requires
        m.0 || m.1 + 64 <= s@.len(),
        m.2 <= m.3 <= s@.len(),
    ensures
        final(out)@ == old(out)@ + link_target(style, s@, (m.0, m.1 as int, m.2 as int, m.3 as int)),
{
    let ghost start = old(out)@;
    let len = s.len();
    match style {
        UrlStyle::CustomScheme => {
            if m.0 {
                out.append("sneaker://home");
            } else {
                out.append("sneaker://");
                push_chars(out, s, m.1, m.1 + 64);
            }
        },
        UrlStyle::LocalhostHttp => {
            if m.0 {
                out.append("http://home.localhost");
            } else {
                out.append("http://");
                push_chars(out, s, m.1, m.1 + 64);
                out.append(".localhost");
            }
        },
    }
    push_chars(out, s, m.2, m.3);
    assert(out@ =~= start + link_target(style, s@, (m.0, m.1 as int, m.2 as int, m.3 as int)));
}

/// The text with every `http(s)://sneakerweb.localhost` and
/// `http(s)://<64 hex>.localhost` link (with optional port and path)
/// rewritten into `style`, exactly as a left-to-right, non-overlapping
/// replacement of the pattern
/// `https?://(sneakerweb|[a-fA-F0-9]{64})\.localhost(?::\d+)?(/[^"'\s>]*)?`.
pub fn rewrite_urls_in_text(text: &str, style: UrlStyle) -> (r: String)
    ensures
        r@ == rewrite_links(text@, style),
{
    let v = chars_of(text);
    let s = v.as_slice();
    let mut out = String::new();
    let mut i: usize = 0;
    while i < s.len()
        invariant
            i <= s@.len(),
            s@ == text@,
            out@ + rewrite_from(s@, style, i as int) == rewrite_from(s@, style, 0),
        decreases s@.len() - i,
    {
        let ghost before = out@;
        match find_link(s, i) {
            Some(m) => {
                proof {
                    lemma_link_extent(s@, i as int);
                }
                push_link_target(&mut out, style, s, m);
                assert(out@ + rewrite_from(s@, style, m.3 as int) =~= before + rewrite_from(
                    s@,
                    style,
                    i as int,
                ));
                i = m.3;
            },
            None => {
                out.push(s[i]);
                assert(out@ + rewrite_from(s@, style, i + 1) =~= before + rewrite_from(
                    s@,
                    style,
                    i as int,
                ));
                i = i + 1;
            },
        }
    }
    assert(rewrite_from(s@, style, i as int) =~= Seq::<char>::empty());
    assert(out@ =~= rewrite_links(text@, style));
    out
}


/// Whether a body of this content type is text whose links are rewritten:
/// HTML, CSS, JavaScript or JSON.
pub open spec fn is_rewritable(content_type: Seq<char>) -> bool {
    ||| contains(content_type, "text/html"@)
    ||| contains(content_type, "text/css"@)
    ||| contains(content_type, "application/javascript"@)
    ||| contains(content_type, "text/javascript"@)
    ||| contains(content_type, "application/json"@)
}

/// Whether a body of this content type has its links rewritten.
pub fn is_rewritable_type(content_type: &str) -> (r: bool)
    ensures
        r == is_rewritable(content_type@),
{
    let v = chars_of(content_type);
    let s = v.as_slice();
    text_contains(s, "text/html") || text_contains(s, "text/css") || text_contains(
        s,
        "application/javascript",
    ) || text_contains(s, "text/javascript") || text_contains(s, "application/json")
}

/// What `String::from_utf8_lossy` decodes a byte string to: its UTF-8
/// decoding, with each invalid sequence replaced by U+FFFD.
pub uninterp spec fn utf8_lossy(bytes: Seq<u8>) -> Seq<char>;

/// Decodes `bytes` with `String::from_utf8_lossy` (std). Claimed: the
/// result is the named lossy decoding of the bytes, and for valid UTF-8 it
/// is the plain decoding, as std documents. The replacement of invalid
/// sequences is not stated beyond the name.
#[verifier::external_body]
fn decode_utf8_lossy(bytes: &[u8]) -> (r: String)
    ensures
        r@ == utf8_lossy(bytes@),
        valid_utf8(bytes@) ==> r@ == decode_utf8(bytes@),
{
    String::from_utf8_lossy(bytes).into_owned()
}

/// The body with its links rewritten (see `rewrite_urls_in_text`) when the
/// content type is rewritable text, decoded leniently and encoded back as
/// UTF-8; any other body is handed back unchanged.
pub fn rewrite_urls(body: &[u8], content_type: &str, style: UrlStyle) -> (r: Vec<u8>)
    ensures
        !is_rewritable(content_type@) ==> r@ == body@,
        is_rewritable(content_type@) ==> r@ == encode_utf8(
            rewrite_links(utf8_lossy(body@), style),
        ),
        is_rewritable(content_type@) && valid_utf8(body@) ==> r@ == encode_utf8(
            rewrite_links(decode_utf8(body@), style),
        ),
{
    if !is_rewritable_type(content_type) {
        return slice_to_vec(body);
    }
    let text = decode_utf8_lossy(body);
    let rewritten = rewrite_urls_in_text(text.as_str(), style);
    let bytes = rewritten.as_str().as_bytes();
    slice_to_vec(bytes)
}


/// From index `p` on, text in which no link starts is kept as it is.
proof fn lemma_rewrite_from_without_links(s: Seq<char>, style: UrlStyle, p: int)
    requires
        0 <= p <= s.len(),
        forall|i: int| p <= i < s.len() ==> (#[trigger] link_at(s, i)) is None,
    ensures
        rewrite_from(s, style, p) == s.subrange(p, s.len() as int),
    decreases s.len() - p,
{
    if p < s.len() {
        lemma_rewrite_from_without_links(s, style, p + 1);
        assert(seq![s[p]] + s.subrange(p + 1, s.len() as int) =~= s.subrange(p, s.len() as int));
    } else {
        assert(s.subrange(p, s.len() as int) =~= Seq::<char>::empty());
    }
}

/// Text in which no link starts comes out of rewriting unchanged.
pub proof fn lemma_rewrite_keeps_text_without_links(s: Seq<char>, style: UrlStyle)
    requires
        forall|i: int| 0 <= i < s.len() ==> (#[trigger] link_at(s, i)) is None,
    ensures
        rewrite_links(s, style) == s,
{
    lemma_rewrite_from_without_links(s, style, 0);
    assert(s.subrange(0, s.len() as int) =~= s);
}

/// Text before the first place where a link starts is kept as it is, and
/// rewriting goes on from that place.
pub proof fn lemma_rewrite_skips_linkless_prefix(s: Seq<char>, style: UrlStyle, p: int)
    requires
        0 <= p <= s.len(),
        forall|i: int| 0 <= i < p ==> (#[trigger] link_at(s, i)) is None,
    ensures
        rewrite_links(s, style) == s.subrange(0, p) + rewrite_from(s, style, p),
    decreases p,
{
    if p > 0 {
        lemma_rewrite_skips_linkless_prefix(s, style, p - 1);
        assert(s.subrange(0, p - 1) + (seq![s[p - 1]] + rewrite_from(s, style, p)) =~= s.subrange(
            0,
            p,
        ) + rewrite_from(s, style, p));
    } else {
        assert(s.subrange(0, 0) + rewrite_from(s, style, 0) =~= rewrite_from(s, style, 0));
    }
}

} // verus!
