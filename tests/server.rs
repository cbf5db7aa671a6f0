use hls_demo::server::{respond, route_request, FileOutcome, ResourceClass, Response, Route};

fn served(req: &str) -> (ResourceClass, String) {
    match route_request(req) {
        Route::Serve { class, file } => (class, file),
        other => panic!("expected a file, got {:?}", other),
    }
}

#[test]
fn playlist_is_served_with_its_type() {
    let route = route_request("GET /hls_demo.m3u8 HTTP/1.1\r\nHost: localhost\r\n\r\n");
    assert!(matches!(route, Route::Serve { class: ResourceClass::Playlist, ref file } if file == "segments/hls_demo.m3u8"));
    let r = respond(route, FileOutcome::Read(b"#EXTM3U\n".to_vec()));
    assert_eq!(r.status_code(), 200);
    assert_eq!(
        r.head(),
        "HTTP/1.1 200 OK\r\nAccess-Control-Allow-Origin: *\r\nContent-Type: application/vnd.apple.mpegurl\r\nContent-Length: 8\r\n\r\n"
    );
    assert_eq!(r.body(), b"#EXTM3U\n");
}

#[test]
fn missing_segment_is_not_found() {
    let route = route_request("GET /missing.mp4 HTTP/1.1\r\n\r\n");
    assert!(matches!(route, Route::Serve { class: ResourceClass::Segment, ref file } if file == "segments/missing.mp4"));
    let r = respond(route, FileOutcome::Missing);
    assert_eq!(r.status_code(), 404);
    assert_eq!(r.head(), "HTTP/1.1 404 NOT FOUND\r\n\r\n");
    assert!(r.body().is_empty());
}

#[test]
fn traversal_is_rejected() {
    assert!(matches!(route_request("GET /../secret.mp4 HTTP/1.1\r\n\r\n"), Route::BadRequest));
    assert!(matches!(route_request("GET /a/../../x.js HTTP/1.1\r\n\r\n"), Route::BadRequest));
    assert!(matches!(route_request("GET //etc/passwd.wasm HTTP/1.1\r\n\r\n"), Route::BadRequest));
    assert!(matches!(route_request("GET segments/0.mp4 HTTP/1.1\r\n\r\n"), Route::BadRequest));
    let r = respond(Route::BadRequest, FileOutcome::Missing);
    assert_eq!(r.status_code(), 400);
    assert_eq!(r.head(), "HTTP/1.1 400 BAD REQUEST\r\n\r\n");
}

#[test]
fn dots_inside_a_name_are_allowed() {
    assert_eq!(served("GET /v..1.mp4 HTTP/1.1\r\n"), (ResourceClass::Segment, "segments/v..1.mp4".to_string()));
}

#[test]
fn classes_by_suffix() {
    assert_eq!(served("GET /a/b/0003.mp4 HTTP/1.1\r\n"), (ResourceClass::Segment, "segments/0003.mp4".to_string()));
    assert_eq!(served("GET /player.js HTTP/1.1\r\n"), (ResourceClass::Script, "assets/player.js".to_string()));
    assert_eq!(served("GET /pkg/player_bg.wasm HTTP/1.1\r\n"), (ResourceClass::WasmModule, "assets/player_bg.wasm".to_string()));
    assert_eq!(served("GET / HTTP/1.1\r\n"), (ResourceClass::Index, "assets/index.html".to_string()));
    assert!(matches!(route_request("GET /notes.txt HTTP/1.1\r\n"), Route::NotFound));
    assert!(matches!(route_request("GET /movie.mp4.txt HTTP/1.1\r\n"), Route::NotFound));
}

#[test]
fn only_get_is_served() {
    assert!(matches!(route_request("POST /hls_demo.m3u8 HTTP/1.1\r\n"), Route::NotFound));
}

#[test]
fn malformed_request_lines() {
    assert!(matches!(route_request(""), Route::BadRequest));
    assert!(matches!(route_request("GET\r\n"), Route::BadRequest));
    assert!(matches!(route_request("GET /x.mp4\r\n"), Route::BadRequest));
    assert!(matches!(route_request(" /x.mp4 HTTP/1.1\r\n"), Route::BadRequest));
}

#[test]
fn content_types_and_lengths() {
    let body = vec![0u8; 1234];
    let r = respond(
        Route::Serve { class: ResourceClass::WasmModule, file: "assets/m.wasm".to_string() },
        FileOutcome::Read(body),
    );
    assert_eq!(
        r.head(),
        "HTTP/1.1 200 OK\r\nAccess-Control-Allow-Origin: *\r\nContent-Type: application/wasm\r\nContent-Length: 1234\r\n\r\n"
    );
    let r = respond(Route::Serve { class: ResourceClass::Segment, file: String::new() }, FileOutcome::Read(vec![]));
    assert!(r.head().contains("Content-Type: video/mp4\r\nContent-Length: 0\r\n"));
    let r = respond(Route::Serve { class: ResourceClass::Script, file: String::new() }, FileOutcome::Read(vec![1]));
    assert!(r.head().contains("Content-Type: application/javascript\r\n"));
    let r = respond(Route::Serve { class: ResourceClass::Index, file: String::new() }, FileOutcome::Read(vec![1]));
    assert!(r.head().contains("Content-Type: text/html\r\n"));
    assert!(matches!(respond(Route::NotFound, FileOutcome::Read(vec![1])), Response::NotFound));
}

#[test]
fn unreadable_file_is_a_server_error() {
    let route = route_request("GET /0.mp4 HTTP/1.1\r\n\r\n");
    let r = respond(route, FileOutcome::Unreadable);
    assert_eq!(r.status_code(), 500);
    assert_eq!(r.head(), "HTTP/1.1 500 INTERNAL SERVER ERROR\r\n\r\n");
    assert!(r.body().is_empty());
}
