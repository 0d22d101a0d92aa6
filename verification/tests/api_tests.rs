use sneaker_core::api::{
    body_start, classify_request, dialog_selection, empty_body_response, finish_body, import_path_of,
    import_result_response, missing_path_response, not_found_response, options_response,
    pick_file_response, progress_response, request_content_length, save_failed_response, take_body_bytes, ApiRoute,
    PickFileOutcome,
};

#[test]
fn routes() {
    let cases = [
        ("POST /pick-file HTTP/1.1\r\nHost: x\r\n\r\n", ApiRoute::PickFile),
        ("POST /api/import HTTP/1.1\r\n\r\n", ApiRoute::Import),
        ("POST /api/import-path HTTP/1.1\r\n\r\n{}", ApiRoute::ImportPath),
        ("GET /api/import-progress HTTP/1.1\r\n\r\n", ApiRoute::Progress),
        ("OPTIONS /api/import HTTP/1.1\r\n\r\n", ApiRoute::Options),
        ("  POST\t/api/import", ApiRoute::Import),
        ("POST /api/import", ApiRoute::Import),
        ("POST /api/imports HTTP/1.1", ApiRoute::NotFound),
        ("GET /api/import HTTP/1.1", ApiRoute::NotFound),
        ("post /api/import HTTP/1.1", ApiRoute::NotFound),
        (" OPTIONS / HTTP/1.1", ApiRoute::NotFound),
        ("OPTIONSX", ApiRoute::Options),
        ("", ApiRoute::NotFound),
        ("\nPOST /api/import", ApiRoute::NotFound),
        ("POST\u{a0}/api/import", ApiRoute::Import),
    ];
    for (req, want) in cases {
        assert_eq!(classify_request(req), want, "{req:?}");
    }
}

/// The content length as the shell computes it.
fn reference_length(req: &str) -> usize {
    let lines: Vec<&str> = req.lines().collect();
    lines
        .iter()
        .find(|l| l.to_lowercase().starts_with("content-length:"))
        .and_then(|l| l.split(':').nth(1))
        .and_then(|v| v.trim().parse().ok())
        .unwrap_or(0)
}

#[test]
fn content_lengths() {
    let cases = [
        "POST /api/import HTTP/1.1\r\nContent-Length: 12\r\n\r\nbody",
        "POST / HTTP/1.1\r\ncontent-length:+7\r\n\r\n",
        "POST / HTTP/1.1\r\nCONTENT-LENGTH: abc\r\nContent-Length: 5\r\n\r\n",
        "POST / HTTP/1.1\r\nHost: a\r\n\r\n",
        "POST / HTTP/1.1\nContent-Length:\t42 \n",
        "Content-Length: 1:2\r\n",
        "Content-Length: 18446744073709551616\r\n",
        "Content-Length: 18446744073709551615\r\n",
        "X-Content-Length: 9\r\nContent-Length: 3",
        "",
        "Content-Length 9\r\n",
    ];
    for req in cases {
        assert_eq!(request_content_length(req), reference_length(req), "{req:?}");
    }
    assert_eq!(request_content_length("a\r\nContent-Length: 12\r\n\r\n"), 12);
}

#[test]
fn body_offsets() {
    for req in ["GET / HTTP/1.1\r\n\r\nhello", "no head end", "\u{e9}\r\n\r\nx", "\r\n\r\n", ""] {
        let want = req.find("\r\n\r\n").map(|i| i + 4).unwrap_or(0);
        assert_eq!(body_start(req), want, "{req:?}");
    }
}

/// The import path as the shell computes it.
fn reference_path(req: &str) -> String {
    let body_start = req.find("\r\n\r\n").map(|i| i + 4).unwrap_or(0);
    let body = &req[body_start..];
    body.trim()
        .strip_prefix('{')
        .and_then(|s| s.strip_suffix('}'))
        .and_then(|s| s.split('"').nth(3))
        .map(|s| s.to_string())
        .unwrap_or_default()
}

#[test]
fn import_paths() {
    let cases = [
        "POST /api/import-path HTTP/1.1\r\n\r\n{\"filePath\":\"/home/u/a.snk\"}",
        "POST /api/import-path HTTP/1.1\r\n\r\n  {\"filePath\": \"C:\\\\x.snk\"}\n",
        "POST /api/import-path HTTP/1.1\r\n\r\n{\"filePath\"}",
        "POST /api/import-path HTTP/1.1\r\n\r\n[\"a\",\"b\"]",
        "POST /api/import-path HTTP/1.1\r\n\r\n{",
        "POST /api/import-path HTTP/1.1\r\n\r\n{}",
        "{\"a\":\"b\",\"c\":\"d\"}",
        "",
    ];
    for req in cases {
        assert_eq!(import_path_of(req), reference_path(req), "{req:?}");
    }
    assert_eq!(
        import_path_of("POST / HTTP/1.1\r\n\r\n{\"filePath\":\"/tmp/f.snk\"}"),
        "/tmp/f.snk"
    );
}

#[test]
fn dialog_output_is_trimmed() {
    assert_eq!(dialog_selection("/home/u/file.snk\n"), "/home/u/file.snk");
    assert_eq!(dialog_selection("  \u{3000}x y\r\n"), "x y");
    assert_eq!(dialog_selection("\n"), "");
}

#[test]
fn responses() {
    assert_eq!(
        import_result_response(true),
        "HTTP/1.1 200 OK\r\nContent-Type: application/json\r\nAccess-Control-Allow-Origin: *\r\n\r\n{\"success\":true}"
    );
    assert_eq!(
        import_result_response(false),
        "HTTP/1.1 500 ERROR\r\nContent-Type: application/json\r\nAccess-Control-Allow-Origin: *\r\n\r\n{\"error\":\"import failed\"}"
    );
    assert_eq!(
        empty_body_response(),
        "HTTP/1.1 400 BAD REQUEST\r\nContent-Type: application/json\r\n\r\n{\"error\":\"empty body\"}"
    );
    assert_eq!(
        missing_path_response(),
        "HTTP/1.1 400 BAD REQUEST\r\nContent-Type: application/json\r\n\r\n{\"error\":\"missing filePath\"}"
    );
    assert_eq!(
        save_failed_response(),
        "HTTP/1.1 500 ERROR\r\nContent-Type: application/json\r\n\r\n{\"error\":\"failed to save temp file\"}"
    );
    assert_eq!(
        options_response(),
        "HTTP/1.1 204 NO CONTENT\r\nAccess-Control-Allow-Origin: *\r\nAccess-Control-Allow-Methods: POST, OPTIONS\r\nAccess-Control-Allow-Headers: Content-Type\r\n\r\n"
    );
    assert_eq!(not_found_response(), "HTTP/1.1 404 NOT FOUND\r\n\r\n");
    assert_eq!(
        progress_response("{\"phase\":\"idle\"}"),
        "HTTP/1.1 200 OK\r\nContent-Type: application/json\r\nAccess-Control-Allow-Origin: *\r\n\r\n{\"phase\":\"idle\"}"
    );
}

#[test]
fn pick_file_responses() {
    assert_eq!(
        pick_file_response(&PickFileOutcome::DialogFailed("no display".to_string())),
        "HTTP/1.1 500 ERROR\r\nContent-Type: application/json\r\nAccess-Control-Allow-Origin: *\r\n\r\n{\"error\":\"Failed to spawn file dialog: no display\"}"
    );
    assert_eq!(
        pick_file_response(&PickFileOutcome::Cancelled),
        "HTTP/1.1 200 OK\r\nContent-Type: application/json\r\nAccess-Control-Allow-Origin: *\r\n\r\n{\"cancelled\":true}"
    );
    assert_eq!(
        pick_file_response(&PickFileOutcome::ReadFailed("denied".to_string())),
        "HTTP/1.1 500 ERROR\r\nContent-Type: application/json\r\nAccess-Control-Allow-Origin: *\r\n\r\n{\"error\":\"Failed to read file: denied\"}"
    );
    assert_eq!(
        pick_file_response(&PickFileOutcome::SaveFailed("full".to_string())),
        "HTTP/1.1 500 ERROR\r\nContent-Type: application/json\r\n\r\n{\"error\":\"failed to save temp file: full\"}"
    );
    assert_eq!(pick_file_response(&PickFileOutcome::Imported(true)), import_result_response(true));
    assert_eq!(pick_file_response(&PickFileOutcome::Imported(false)), import_result_response(false));
}

#[test]
fn body_is_read_up_to_its_declared_length() {
    let mut body = b"ab".to_vec();
    assert_eq!(take_body_bytes(&mut body, b"cdef", 5), 3);
    assert_eq!(body, b"abcde");
    assert_eq!(take_body_bytes(&mut body, b"xyz", 5), 0);
    assert_eq!(body, b"abcde");
    let mut short = b"a".to_vec();
    assert_eq!(take_body_bytes(&mut short, b"bc", 10), 2);
    assert_eq!(short, b"abc");
    let mut long = b"abcdef".to_vec();
    finish_body(&mut long, 4);
    assert_eq!(long, b"abcd");
    finish_body(&mut short, 10);
    assert_eq!(short, b"abc");
}
