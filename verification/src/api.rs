//! The small HTTP API through which the reader starts imports: recognizing
//! a request, reading its `Content-Length`, body and `filePath`, and the
//! exact responses for each outcome.
use vstd::prelude::*;
use vstd::string::*;
use vstd::utf8::encode_utf8;
use vstd::slice::slice_subrange;
use crate::text::{
    chars_of, first_line, first_line_range, words, words_from, next_word, range_equals, occurs_at,
    matches_str_at, lines_from, line_at, starts_with_ci, starts_with_ci_at, field, field_from,
    field_range, trim, trim_bounds, trim_range, parse_unsigned, parse_unsigned_range, find_from,
    find_in, bytes_find, lemma_find_from,
};

verus! {

/// What a request to the import API asks for.
#[derive(Clone, Copy, PartialEq, Eq, Debug)]
pub enum ApiRoute {
    /// `POST /pick-file`: choose a file in a dialog and import it.
    PickFile,
    /// `POST /api/import`: import the request body.
    Import,
    /// `POST /api/import-path`: import the file named in the body.
    ImportPath,
    /// `GET /api/import-progress`: the latest progress report.
    Progress,
    /// A CORS preflight (`OPTIONS ...`).
    Options,
    /// Anything else.
    NotFound,
}

/// Whether the first two words of the request's first line are `method`
/// and `path`.
pub open spec fn is_call(req: Seq<char>, method: Seq<char>, path: Seq<char>) -> bool {
    let w = words(first_line(req));
    w.len() >= 2 && w[0] == method && w[1] == path
}

/// The route of a request, tried in this order.
pub open spec fn api_route(req: Seq<char>) -> ApiRoute {
    if is_call(req, "POST"@, "/pick-file"@) {
        ApiRoute::PickFile
    } else if is_call(req, "POST"@, "/api/import"@) {
        ApiRoute::Import
    } else if is_call(req, "POST"@, "/api/import-path"@) {
        ApiRoute::ImportPath
    } else if is_call(req, "GET"@, "/api/import-progress"@) {
        ApiRoute::Progress
    } else if occurs_at(first_line(req), 0, "OPTIONS"@) {
        ApiRoute::Options
    } else {
        ApiRoute::NotFound
    }
}

/// The route of a request, from its text.
pub fn classify_request(req: &str) -> (r: ApiRoute)
    ensures
        r == api_route(req@),
{
    let v = chars_of(req);
    let s = v.as_slice();
    let (a, b) = first_line_range(s);
    let line = slice_subrange(s, a, b);
    let ghost l = line@;
    let mut two: Option<((usize, usize), (usize, usize))> = None;
    if let Some(w0) = next_word(line, 0) {
        if let Some(w1) = next_word(line, w0.1) {
            two = Some((w0, w1));
        }
    }
    proof {
        let ws = words_from(l, 0);
        assert(words(l).len() == ws.len());
        match two {
            Some((w0, w1)) => {
                assert(ws[0] == (w0.0 as int, w0.1 as int));
                assert(ws[1] == ws.drop_first()[0]);
                assert(words(l)[0] == l.subrange(w0.0 as int, w0.1 as int));
                assert(words(l)[1] == l.subrange(w1.0 as int, w1.1 as int));
            },
            None => {
                assert(ws.len() < 2);
            },
        }
    }
    let post_call = |path: &str| -> (r: bool)
        ensures
            r == is_call(req@, "POST"@, path@),
        {
            match two {
                Some((w0, w1)) => range_equals(line, w0.0, w0.1, "POST") && range_equals(
                    line,
                    w1.0,
                    w1.1,
                    path,
                ),
                None => false,
            }
        };
    if post_call("/pick-file") {
        ApiRoute::PickFile
    } else if post_call("/api/import") {
        ApiRoute::Import
    } else if post_call("/api/import-path") {
        ApiRoute::ImportPath
    } else if (match two {
        Some((w0, w1)) => range_equals(line, w0.0, w0.1, "GET") && range_equals(
            line,
            w1.0,
            w1.1,
            "/api/import-progress",
        ),
        None => false,
    }) {
        ApiRoute::Progress
    } else if matches_str_at(line, 0, "OPTIONS") {
        ApiRoute::Options
    } else {
        ApiRoute::NotFound
    }
}


/// The first of the line bounds `ls` of `s` whose line starts, ignoring
/// ASCII case, with `content-length:`.
pub open spec fn length_header(s: Seq<char>, ls: Seq<(int, int)>) -> Option<(int, int)>
    decreases ls.len(),
{
    if ls.len() == 0 {
        None
    } else if starts_with_ci(s.subrange(ls[0].0, ls[0].1), "content-length:"@) {
        Some(ls[0])
    } else {
        length_header(s, ls.drop_first())
    }
}

/// The value a `Content-Length` line gives: its second `:`-separated
/// field, trimmed, parsed as a `usize`; zero when there is no such field or
/// it does not parse.
pub open spec fn length_value(line: Seq<char>) -> nat {
    match field(line, ':', 1) {
        None => 0,
        Some(v) => match parse_unsigned(trim(v), usize::MAX as nat) {
            Some(n) => n,
            None => 0,
        },
    }
}

/// The declared body length of a request: the value of its first line
/// that starts with `content-length:` in any ASCII case, or zero when
/// there is none.
pub open spec fn content_length(req: Seq<char>) -> nat {
    match length_header(req, lines_from(req, 0)) {
        None => 0,
        Some(r) => length_value(req.subrange(r.0, r.1)),
    }
}

/// The value of one `Content-Length` line.
fn line_length_value(line: &[char]) -> (r: usize)
    ensures
        r as nat == length_value(line@),
{
    let len = line.len();
    proof {
        assert(line@.subrange(0, len as int) =~= line@);
    }
    match field_range(line, len, ':', 0, 1) {
        None => 0,
        Some((x, y)) => {
            let v = slice_subrange(line, x, y);
            let (p, q) = trim_range(v, 0, v.len());
            proof {
                assert(v@.subrange(0, v@.len() as int) =~= v@);
            }
            match parse_unsigned_range(v, p, q, usize::MAX as u64) {
                Some(n) => n as usize,
                None => 0,
            }
        },
    }
}

/// The declared body length of a request.
pub fn request_content_length(req: &str) -> (r: usize)
    ensures
        r as nat == content_length(req@),
{
    let v = chars_of(req);
    let s = v.as_slice();
    let mut p: usize = 0;
    while p < s.len()
        invariant
            s@ == req@,
            p <= s@.len(),
            length_header(s@, lines_from(s@, 0)) == length_header(s@, lines_from(s@, p as int)),
        decreases s@.len() - p,
    {
        let (a, b, next) = line_at(s, p);
        if starts_with_ci_at(s, a, b, "content-length:") {
            let line = slice_subrange(s, a, b);
            return line_length_value(line);
        }
        p = next;
    }
    0
}

/// `\r\n\r\n`, the end of the request head.
pub open spec fn head_end() -> Seq<char> {
    "\r\n\r\n"@
}

/// The byte offset at which the body of a request starts: just after the
/// first `\r\n\r\n` of its UTF-8 text, or zero when there is none.
pub open spec fn body_start_offset(req: Seq<char>) -> int {
    match find_from(encode_utf8(req), encode_utf8(head_end()), 0) {
        Some(k) => k + 4,
        None => 0,
    }
}

/// The byte offset at which the body of a request starts.
pub fn body_start(req: &str) -> (r: usize)
    ensures
        r as int == body_start_offset(req@),
{
    let bytes = req.as_bytes();
    let n = bytes.len();
    let marker = "\r\n\r\n".as_bytes();
    proof {
        reveal_strlit("\r\n\r\n");
        assert(encode_utf8(head_end()) =~= seq![13u8, 10u8, 13u8, 10u8]) by {
            vstd::utf8::is_ascii_chars_encode_utf8(head_end());
        }
        assert(marker@ =~= seq![13u8, 10u8, 13u8, 10u8]);
    }
    match bytes_find(bytes, marker, 0) {
        Some(k) => {
            proof {
                lemma_find_from(bytes@, marker@, 0);
            }
            k + 4
        },
        None => 0,
    }
}

/// How many more body bytes a request declaring `content_length` bytes
/// needs when `have` have been read.
pub open spec fn bytes_still_needed(have: nat, content_length: nat) -> nat {
    if have < content_length {
        (content_length - have) as nat
    } else {
        0
    }
}

/// Takes from a newly read `chunk` the bytes the body still needs (no more
/// than the chunk holds) and appends them; returns how many were taken.
pub fn take_body_bytes(body: &mut Vec<u8>, chunk: &[u8], content_length: usize) -> (taken: usize)
    ensures
        taken as nat == if bytes_still_needed(old(body)@.len(), content_length as nat)
            < chunk@.len() {
            bytes_still_needed(old(body)@.len(), content_length as nat)
        } else {
            chunk@.len()
        },
        final(body)@ == old(body)@ + chunk@.subrange(0, taken as int),
{
    let needed: usize = if body.len() < content_length {
        content_length - body.len()
    } else {
        0
    };
    let taken: usize = if needed < chunk.len() {
        needed
    } else {
        chunk.len()
    };
    let ghost start = body@;
    let mut i: usize = 0;
    while i < taken
        invariant
            i <= taken <= chunk@.len(),
            body@ == start + chunk@.subrange(0, i as int),
        decreases taken - i,
    {
        body.push(chunk[i]);
        assert(chunk@.subrange(0, i + 1) =~= chunk@.subrange(0, i as int).push(chunk@[i as int]));
        i = i + 1;
    }
    taken
}

/// Cuts a body read past its declared length back to `content_length`
/// bytes; a shorter body stays as it is.
pub fn finish_body(body: &mut Vec<u8>, content_length: usize)
    ensures
        final(body)@ == if content_length < old(body)@.len() {
            old(body)@.subrange(0, content_length as int)
        } else {
            old(body)@
        },
{
    body.truncate(content_length);
}

/// The text of a request after its head: what follows the first
/// `\r\n\r\n`, or the whole text when there is none.
pub open spec fn request_body(req: Seq<char>) -> Seq<char> {
    match find_from(req, head_end(), 0) {
        Some(k) => req.subrange(k + 4, req.len() as int),
        None => req,
    }
}

/// The file path of an import-path request: in the body trimmed, when it
/// is wrapped in `{`..`}`, the fourth `"`-separated field of what lies
/// between; the empty text otherwise.
pub open spec fn import_path(req: Seq<char>) -> Seq<char> {
    let t = trim(request_body(req));
    if t.len() >= 2 && t[0] == '{' && t[t.len() - 1] == '}' {
        match field(t.subrange(1, t.len() - 1), '"', 3) {
            Some(f) => f,
            None => Seq::empty(),
        }
    } else {
        Seq::empty()
    }
}

/// The file path named by an import-path request.
pub fn import_path_of(req: &str) -> (r: String)
    ensures
        r@ == import_path(req@),
{
    let v = chars_of(req);
    let s = v.as_slice();
    let n = s.len();
    let marker = chars_of("\r\n\r\n");
    proof {
        reveal_strlit("\r\n\r\n");
        assert(marker@ =~= seq!['\r', '\n', '\r', '\n']);
    }
    let body = match find_in(s, marker.as_slice(), 0) {
        Some(k) => {
            proof {
                lemma_find_from(s@, marker@, 0);
            }
            slice_subrange(s, k + 4, s.len())
        },
        None => s,
    };
    assert(body@ == request_body(req@));
    let (x, y) = trim_range(body, 0, body.len());
    proof {
        assert(body@.subrange(0, body@.len() as int) =~= body@);
    }
    let t = slice_subrange(body, x, y);
    assert(t@ == trim(request_body(req@)));
    if t.len() >= 2 && t[0] == '{' && t[t.len() - 1] == '}' {
        let inner = slice_subrange(t, 1, t.len() - 1);
        proof {
            assert(inner@.subrange(0, inner@.len() as int) =~= inner@);
        }
        match field_range(inner, inner.len(), '"', 0, 3) {
            Some((a, b)) => crate::text::string_of(inner, a, b),
            None => String::new(),
        }
    } else {
        String::new()
    }
}

/// What the file dialog printed, trimmed: the chosen path.
pub fn dialog_selection(output: &str) -> (r: String)
    ensures
        r@ == trim(output@),
{
    let v = chars_of(output);
    let s = v.as_slice();
    let (x, y) = trim_range(s, 0, s.len());
    proof {
        assert(s@.subrange(0, s@.len() as int) =~= s@);
    }
    crate::text::string_of(s, x, y)
}


/// A JSON response: status line, `Content-Type: application/json`, the
/// CORS header when `cors`, a blank line, then `body`.
pub open spec fn json_response_text(status: Seq<char>, cors: bool, body: Seq<char>) -> Seq<char> {
    "HTTP/1.1 "@ + status + "\r\nContent-Type: application/json\r\n"@ + (if cors {
        "Access-Control-Allow-Origin: *\r\n"@
    } else {
        ""@
    }) + "\r\n"@ + body
}

/// A JSON response.
pub fn json_response(status: &str, cors: bool, body: &str) -> (r: String)
    ensures
        r@ == json_response_text(status@, cors, body@),
{
    let mut r = "HTTP/1.1 ".to_owned();
    r.append(status);
    r.append("\r\nContent-Type: application/json\r\n");
    if cors {
        r.append("Access-Control-Allow-Origin: *\r\n");
    }
    r.append("\r\n");
    r.append(body);
    proof {
        if !cors {
            reveal_strlit("");
        }
    }
    assert(r@ =~= json_response_text(status@, cors, body@));
    r
}

/// `{"error":"<message>"}`
pub open spec fn error_body(message: Seq<char>) -> Seq<char> {
    "{\"error\":\""@ + message + "\"}"@
}

/// `{"error":"<message>"}`
pub fn error_json(message: &str) -> (r: String)
    ensures
        r@ == error_body(message@),
{
    let mut r = "{\"error\":\"".to_owned();
    r.append(message);
    r.append("\"}");
    r
}

/// The response to an import that ran: success, or `import failed`.
pub open spec fn import_result_text(succeeded: bool) -> Seq<char> {
    if succeeded {
        json_response_text("200 OK"@, true, "{\"success\":true}"@)
    } else {
        json_response_text("500 ERROR"@, true, error_body("import failed"@))
    }
}

/// The response to an import that ran.
pub fn import_result_response(succeeded: bool) -> (r: String)
    ensures
        r@ == import_result_text(succeeded),
{
    if succeeded {
        json_response("200 OK", true, "{\"success\":true}")
    } else {
        let body = error_json("import failed");
        json_response("500 ERROR", true, body.as_str())
    }
}

/// A `500 ERROR` response with the error `<what>: <cause>`.
pub open spec fn failure_text(cors: bool, what: Seq<char>, cause: Seq<char>) -> Seq<char> {
    json_response_text("500 ERROR"@, cors, error_body(what + ": "@ + cause))
}

/// A `500 ERROR` response with the error `<what>: <cause>`.
pub fn failure_response(cors: bool, what: &str, cause: &str) -> (r: String)
    ensures
        r@ == failure_text(cors, what@, cause@),
{
    let mut m = what.to_owned();
    m.append(": ");
    m.append(cause);
    let body = error_json(m.as_str());
    json_response("500 ERROR", cors, body.as_str())
}

/// A `400 BAD REQUEST` response with the error `message`.
pub open spec fn bad_request_text(message: Seq<char>) -> Seq<char> {
    json_response_text("400 BAD REQUEST"@, false, error_body(message))
}

/// A `400 BAD REQUEST` response with the error `message`.
pub fn bad_request_response(message: &str) -> (r: String)
    ensures
        r@ == bad_request_text(message@),
{
    let body = error_json(message);
    json_response("400 BAD REQUEST", false, body.as_str())
}

/// The response that carries a progress report.
pub fn progress_response(report: &str) -> (r: String)
    ensures
        r@ == json_response_text("200 OK"@, true, report@),
{
    json_response("200 OK", true, report)
}

/// The answer to a CORS preflight.
pub open spec fn options_text() -> Seq<char> {
    "HTTP/1.1 204 NO CONTENT\r\nAccess-Control-Allow-Origin: *\r\nAccess-Control-Allow-Methods: POST, OPTIONS\r\nAccess-Control-Allow-Headers: Content-Type\r\n\r\n"@
}

/// The answer to a CORS preflight.
pub fn options_response() -> (r: String)
    ensures
        r@ == options_text(),
{
    "HTTP/1.1 204 NO CONTENT\r\nAccess-Control-Allow-Origin: *\r\nAccess-Control-Allow-Methods: POST, OPTIONS\r\nAccess-Control-Allow-Headers: Content-Type\r\n\r\n".to_owned()
}

/// The answer to any other request.
pub fn not_found_response() -> (r: String)
    ensures
        r@ == "HTTP/1.1 404 NOT FOUND\r\n\r\n"@,
{
    "HTTP/1.1 404 NOT FOUND\r\n\r\n".to_owned()
}

/// How a pick-file request went, step by step.
#[derive(Debug)]
pub enum PickFileOutcome {
    /// The dialog process could not be started (with the cause).
    DialogFailed(String),
    /// The dialog was closed without a choice.
    Cancelled,
    /// The chosen file could not be read (with the cause).
    ReadFailed(String),
    /// The copy to a temporary file could not be written (with the cause).
    SaveFailed(String),
    /// The import ran; whether it succeeded.
    Imported(bool),
}

/// The response to a pick-file request for each outcome.
pub open spec fn pick_file_text(outcome: PickFileOutcome) -> Seq<char> {
    match outcome {
        PickFileOutcome::DialogFailed(e) => failure_text(true, "Failed to spawn file dialog"@, e@),
        PickFileOutcome::Cancelled => json_response_text("200 OK"@, true, "{\"cancelled\":true}"@),
        PickFileOutcome::ReadFailed(e) => failure_text(true, "Failed to read file"@, e@),
        PickFileOutcome::SaveFailed(e) => failure_text(false, "failed to save temp file"@, e@),
        PickFileOutcome::Imported(ok) => import_result_text(ok),
    }
}

/// The response to a pick-file request.
pub fn pick_file_response(outcome: &PickFileOutcome) -> (r: String)
    ensures
        r@ == pick_file_text(*outcome),
{
    match outcome {
        PickFileOutcome::DialogFailed(e) => failure_response(
            true,
            "Failed to spawn file dialog",
            e.as_str(),
        ),
        PickFileOutcome::Cancelled => json_response("200 OK", true, "{\"cancelled\":true}"),
        PickFileOutcome::ReadFailed(e) => failure_response(true, "Failed to read file", e.as_str()),
        PickFileOutcome::SaveFailed(e) => failure_response(
            false,
            "failed to save temp file",
            e.as_str(),
        ),
        PickFileOutcome::Imported(ok) => import_result_response(*ok),
    }
}

/// The response to an import request whose body was declared empty.
pub fn empty_body_response() -> (r: String)
    ensures
        r@ == bad_request_text("empty body"@),
{
    bad_request_response("empty body")
}

/// The response to an import request whose body could not be saved.
pub fn save_failed_response() -> (r: String)
    ensures
        r@ == json_response_text("500 ERROR"@, false, error_body("failed to save temp file"@)),
{
    let body = error_json("failed to save temp file");
    json_response("500 ERROR", false, body.as_str())
}

/// The response to an import-path request that names no file.
pub fn missing_path_response() -> (r: String)
    ensures
        r@ == bad_request_text("missing filePath"@),
{
    bad_request_response("missing filePath")
}

} // verus!
