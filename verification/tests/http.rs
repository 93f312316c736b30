use wallcraft::layout::Platform;
use wallcraft::http::{
    full_header_text, not_found_reply, options_reply_text, plan_range, range_bounds_of,
    route_media_request, route_protocol_request, server_error_reply, MediaRoute, ProtocolRoute,
    RangeReply,
};

fn serve(r: MediaRoute) -> (bool, String, Option<String>) {
    match r {
        MediaRoute::Serve { head, path, range } => (head, path, range),
        _ => panic!("expected a file to serve"),
    }
}

fn reply(r: MediaRoute) -> String {
    match r {
        MediaRoute::Reply(t) => t,
        _ => panic!("expected a reply"),
    }
}

#[test]
fn serves_files_under_the_data_directory() {
    let req = "GET /file?x=1&path=%2Fd%2Fprevews%2Fa.webm HTTP/1.1\r\nHost: x\r\nRange: bytes=0-\r\n\r\n";
    let (head, path, range) = serve(route_media_request(req, "/d", Platform::Linux));
    assert!(!head);
    assert_eq!(path, "/d/prevews/a.webm");
    assert_eq!(range, Some("Range: bytes=0-".to_string()));
}

#[test]
fn head_requests_and_missing_range() {
    let (head, path, range) = serve(route_media_request("HEAD /file?path=/d/a.mp4 HTTP/1.1\nrAnGe:x\n", "/d", Platform::Linux));
    assert!(head);
    assert_eq!(path, "/d/a.mp4");
    assert_eq!(range, Some("rAnGe:x".to_string()));
    let (_, _, range) = serve(route_media_request("GET /file?path=/d/a.mp4\r\nAccept: */*\r\n", "/d", Platform::Linux));
    assert_eq!(range, None);
}

#[test]
fn refusals() {
    assert!(matches!(route_media_request("", "/d", Platform::Linux), MediaRoute::NoReply));
    assert_eq!(reply(route_media_request("GET /other HTTP/1.1\r\n", "/d", Platform::Linux)), "HTTP/1.1 404\r\nContent-Length: 0\r\n\r\n");
    assert_eq!(reply(route_media_request("GET /file?name=x HTTP/1.1\r\n", "/d", Platform::Linux)), "HTTP/1.1 400\r\nContent-Length: 0\r\n\r\n");
    assert_eq!(reply(route_media_request("GET /file?path=/etc/passwd HTTP/1.1\r\n", "/d", Platform::Linux)), "HTTP/1.1 403\r\nContent-Length: 0\r\n\r\n");
    assert_eq!(reply(route_media_request("GET /file?path=%2Fdata%2Fx HTTP/1.1\r\n", "/d", Platform::Linux)), "HTTP/1.1 403\r\nContent-Length: 0\r\n\r\n");
    // No method or target: GET and `/`.
    assert_eq!(reply(route_media_request("   \r\n", "/d", Platform::Linux)), "HTTP/1.1 404\r\nContent-Length: 0\r\n\r\n");
}

#[test]
fn options_requests() {
    let expected = "HTTP/1.1 204\r\naccess-control-allow-origin: *\r\naccess-control-allow-headers: *\r\naccess-control-allow-methods: GET,HEAD,OPTIONS\r\nContent-Length: 0\r\n\r\n";
    assert_eq!(options_reply_text(), expected);
    assert_eq!(reply(route_media_request("OPTIONS /anything HTTP/1.1\r\n", "/d", Platform::Linux)), expected);
    assert_eq!(not_found_reply(), "HTTP/1.1 404\r\nContent-Length: 0\r\n\r\n");
    assert_eq!(server_error_reply(), "HTTP/1.1 500\r\nContent-Length: 0\r\n\r\n");
}

#[test]
fn full_headers() {
    assert_eq!(
        full_header_text("video/webm", 1234),
        "HTTP/1.1 200\r\nContent-Type: video/webm\r\nContent-Length: 1234\r\nAccept-Ranges: bytes\r\naccess-control-allow-origin: *\r\n\r\n"
    );
}

#[test]
fn range_values_after_bytes() {
    assert_eq!(range_bounds_of("Range: bytes=100-200"), (Some(100), Some(200)));
    assert_eq!(range_bounds_of("range:bytes=123-456"), (Some(123), Some(456)));
    assert_eq!(range_bounds_of("Range: bytes= 7 - "), (Some(7), None));
    assert_eq!(range_bounds_of("Range: bytes=-+9"), (None, Some(9)));
    assert_eq!(range_bounds_of("Range: bytes=1x-2"), (None, Some(2)));
    assert_eq!(range_bounds_of("Range: bytes=99999999999999999999-1"), (None, Some(1)));
    assert_eq!(range_bounds_of("Range: bytes=5"), (None, None));
    assert_eq!(range_bounds_of("Range: items=1-2"), (None, None));
    assert_eq!(range_bounds_of("Range: none"), (None, None));
}

#[test]
fn range_plans() {
    match plan_range("Range: bytes=100-199", "video/mp4", 1000) {
        RangeReply::Partial { start, end, to_read, header } => {
            assert_eq!((start, end, to_read), (100, 199, 100));
            assert_eq!(header, "HTTP/1.1 206\r\nContent-Type: video/mp4\r\nContent-Length: 100\r\nContent-Range: bytes 100-199/1000\r\nAccept-Ranges: bytes\r\naccess-control-allow-origin: *\r\n\r\n");
        }
        _ => panic!("expected a partial reply"),
    }
    match plan_range("Range: bytes=0-", "video/mp4", 100) {
        RangeReply::Partial { start, end, to_read, header } => {
            assert_eq!((start, end, to_read), (0, 99, 100));
            assert_eq!(header, "HTTP/1.1 206\r\nContent-Type: video/mp4\r\nContent-Length: 100\r\nContent-Range: bytes 0-99/100\r\nAccept-Ranges: bytes\r\naccess-control-allow-origin: *\r\n\r\n");
        }
        _ => panic!("expected a partial reply"),
    }
    match plan_range("Range: bytes=10-500", "video/mp4", 100) {
        RangeReply::Partial { start, end, to_read, .. } => assert_eq!((start, end, to_read), (10, 99, 90)),
        _ => panic!("expected a partial reply"),
    }
    match plan_range("Range: bytes=-", "video/mp4", 100) {
        RangeReply::Partial { start, end, to_read, .. } => assert_eq!((start, end, to_read), (0, 99, 100)),
        _ => panic!("expected a partial reply"),
    }
    match plan_range("Range: bytes=100-", "video/mp4", 100) {
        RangeReply::NotSatisfiable(h) => assert_eq!(h, "HTTP/1.1 416\r\nContent-Range: bytes */100\r\nContent-Length: 0\r\nAccept-Ranges: bytes\r\naccess-control-allow-origin: *\r\n\r\n"),
        _ => panic!("expected a refusal"),
    }
    assert!(matches!(plan_range("Range: bytes=9-3", "m", 100), RangeReply::NotSatisfiable(_)));
    assert!(matches!(plan_range("Range: bytes=0-", "m", 0), RangeReply::NotSatisfiable(_)));
}

#[test]
fn protocol_routes() {
    assert!(matches!(route_protocol_request("GET", "/", "/d", Platform::Linux), ProtocolRoute::BadRequest));
    assert!(matches!(route_protocol_request("OPTIONS", "/%2Fd%2Fa.png", "/d", Platform::Linux), ProtocolRoute::NoContent));
    assert!(matches!(route_protocol_request("GET", "/%2Fetc%2Fx", "/d", Platform::Linux), ProtocolRoute::Forbidden));
    match route_protocol_request("HEAD", "/%2Fd%2Fwallpapers%2Fa%20b.png", "/d", Platform::Linux) {
        ProtocolRoute::Serve { path, head } => {
            assert_eq!(path, "/d/wallpapers/a b.png");
            assert!(head);
        }
        _ => panic!("expected a file to serve"),
    }
    // A path that does not decode is used as it is.
    match route_protocol_request("GET", "//d/%FF", "d", Platform::Linux) {
        ProtocolRoute::Serve { path, head } => {
            assert_eq!(path, "d/%FF");
            assert!(!head);
        }
        _ => panic!("expected a file to serve"),
    }
}

#[test]
fn windows_protocol_paths() {
    match route_protocol_request("GET", "/C%3A%5Capp%5Cdata%5Cthumbnails%5Cx.jpg", "C:\\app\\data", Platform::Windows) {
        ProtocolRoute::Serve { path, head } => {
            assert_eq!(path, "C:\\app\\data\\thumbnails\\x.jpg");
            assert!(!head);
        }
        _ => panic!("expected a file to serve"),
    }
    assert!(matches!(
        route_protocol_request("GET", "/C%3A%5Capp%5Cdata%5Cx.jpg", "C:\\app\\data", Platform::Linux),
        ProtocolRoute::Forbidden
    ));
    assert!(matches!(
        route_protocol_request("GET", "/C%3A%5Capp%5Cother%5Cx.jpg", "C:\\app\\data", Platform::Windows),
        ProtocolRoute::Forbidden
    ));
}

#[test]
fn windows_drive_letters_compare_without_case() {
    assert!(matches!(
        route_protocol_request("GET", "/c%3A%5Capp%5Cdata%5Cx.jpg", "C:\\app\\data", Platform::Windows),
        ProtocolRoute::Serve { .. }
    ));
}
