use networking::error::Error;
use networking::headers::HttpHeaders;
use networking::http::{HttpMethod, HttpResponse, HttpRequest, HttpStatus, HttpVersion};
use networking::http2::{HpackCodec, Http2Frame, Http2FrameType, Http2Settings, Http2Stream, Http2StreamState};
use networking::time::Duration;

#[test]
fn test_http_method_conversion() {
    assert_eq!(HttpMethod::GET.as_str(), "GET");
    assert_eq!(HttpMethod::POST.as_str(), "POST");
    assert_eq!(HttpMethod::PUT.as_str(), "PUT");
    assert_eq!(HttpMethod::DELETE.as_str(), "DELETE");
    assert_eq!(HttpMethod::HEAD.as_str(), "HEAD");
    assert_eq!(HttpMethod::OPTIONS.as_str(), "OPTIONS");
    assert_eq!(HttpMethod::PATCH.as_str(), "PATCH");
    assert_eq!(HttpMethod::TRACE.as_str(), "TRACE");
    assert_eq!(HttpMethod::CONNECT.as_str(), "CONNECT");
}

#[test]
fn test_http_method_parsing() {
    assert_eq!(HttpMethod::from_str("GET"), Some(HttpMethod::GET));
    assert_eq!(HttpMethod::from_str("POST"), Some(HttpMethod::POST));
    assert_eq!(HttpMethod::from_str("PUT"), Some(HttpMethod::PUT));
    assert_eq!(HttpMethod::from_str("DELETE"), Some(HttpMethod::DELETE));
    assert_eq!(HttpMethod::from_str("HEAD"), Some(HttpMethod::HEAD));
    assert_eq!(HttpMethod::from_str("OPTIONS"), Some(HttpMethod::OPTIONS));
    assert_eq!(HttpMethod::from_str("PATCH"), Some(HttpMethod::PATCH));
    assert_eq!(HttpMethod::from_str("TRACE"), Some(HttpMethod::TRACE));
    assert_eq!(HttpMethod::from_str("CONNECT"), Some(HttpMethod::CONNECT));
    assert_eq!(HttpMethod::from_str("INVALID"), None);
}

#[test]
fn test_http_version_conversion() {
    assert_eq!(HttpVersion::Http1_0.as_str(), "HTTP/1.0");
    assert_eq!(HttpVersion::Http1_1.as_str(), "HTTP/1.1");
    assert_eq!(HttpVersion::Http2_0.as_str(), "HTTP/2.0");
}

#[test]
fn test_http_version_parsing() {
    assert_eq!(HttpVersion::from_str("HTTP/1.0"), Some(HttpVersion::Http1_0));
    assert_eq!(HttpVersion::from_str("HTTP/1.1"), Some(HttpVersion::Http1_1));
    assert_eq!(HttpVersion::from_str("HTTP/2.0"), Some(HttpVersion::Http2_0));
    assert_eq!(HttpVersion::from_str("INVALID"), None);
}

#[test]
fn test_http_status_codes() {
    assert_eq!(HttpStatus::OK.code(), 200);
    assert_eq!(HttpStatus::Created.code(), 201);
    assert_eq!(HttpStatus::Accepted.code(), 202);
    assert_eq!(HttpStatus::NoContent.code(), 204);
    assert_eq!(HttpStatus::MovedPermanently.code(), 301);
    assert_eq!(HttpStatus::Found.code(), 302);
    assert_eq!(HttpStatus::NotModified.code(), 304);
    assert_eq!(HttpStatus::BadRequest.code(), 400);
    assert_eq!(HttpStatus::Unauthorized.code(), 401);
    assert_eq!(HttpStatus::Forbidden.code(), 403);
    assert_eq!(HttpStatus::NotFound.code(), 404);
    assert_eq!(HttpStatus::InternalServerError.code(), 500);
}

#[test]
fn test_http_status_text() {
    assert_eq!(HttpStatus::OK.status_text(), "OK");
    assert_eq!(HttpStatus::Created.status_text(), "Created");
    assert_eq!(HttpStatus::Accepted.status_text(), "Accepted");
    assert_eq!(HttpStatus::NoContent.status_text(), "No Content");
    assert_eq!(HttpStatus::MovedPermanently.status_text(), "Moved Permanently");
    assert_eq!(HttpStatus::Found.status_text(), "Found");
    assert_eq!(HttpStatus::NotModified.status_text(), "Not Modified");
    assert_eq!(HttpStatus::BadRequest.status_text(), "Bad Request");
    assert_eq!(HttpStatus::Unauthorized.status_text(), "Unauthorized");
    assert_eq!(HttpStatus::Forbidden.status_text(), "Forbidden");
    assert_eq!(HttpStatus::NotFound.status_text(), "Not Found");
    assert_eq!(HttpStatus::InternalServerError.status_text(), "Internal Server Error");
}

#[test]
fn test_http_status_categories() {
    assert!(HttpStatus::Continue.is_informational());
    assert!(HttpStatus::SwitchingProtocols.is_informational());
    
    assert!(HttpStatus::OK.is_success());
    assert!(HttpStatus::Created.is_success());
    assert!(HttpStatus::Accepted.is_success());
    assert!(HttpStatus::NoContent.is_success());
    
    assert!(HttpStatus::MovedPermanently.is_redirection());
    assert!(HttpStatus::Found.is_redirection());
    assert!(HttpStatus::NotModified.is_redirection());
    
    assert!(HttpStatus::BadRequest.is_client_error());
    assert!(HttpStatus::Unauthorized.is_client_error());
    assert!(HttpStatus::Forbidden.is_client_error());
    assert!(HttpStatus::NotFound.is_client_error());
    
    assert!(HttpStatus::InternalServerError.is_server_error());
    assert!(HttpStatus::NotImplemented.is_server_error());
    assert!(HttpStatus::BadGateway.is_server_error());
}

#[test]
fn test_http_headers_creation() {
    let headers = HttpHeaders::new();
    assert_eq!(headers.iter().count(), 0);
}

#[test]
fn test_http_headers_set_get() {
    let mut headers = HttpHeaders::new();
    
    headers.set("Content-Type", "text/html");
    headers.set("Content-Length", "1234");
    headers.set("User-Agent", "Matte-Browser/1.0");
    
    assert_eq!(headers.get("content-type"), Some(&"text/html".to_string()));
    assert_eq!(headers.get("content-length"), Some(&"1234".to_string()));
    assert_eq!(headers.get("user-agent"), Some(&"Matte-Browser/1.0".to_string()));
    
    // Test case insensitivity
    assert_eq!(headers.get("Content-Type"), Some(&"text/html".to_string()));
    assert_eq!(headers.get("CONTENT-TYPE"), Some(&"text/html".to_string()));
}

#[test]
fn test_http_headers_contains() {
    let mut headers = HttpHeaders::new();
    
    headers.set("Content-Type", "text/html");
    
    assert!(headers.contains("content-type"));
    assert!(headers.contains("Content-Type"));
    assert!(!headers.contains("content-length"));
}

#[test]
fn test_http_headers_remove() {
    let mut headers = HttpHeaders::new();
    
    headers.set("Content-Type", "text/html");
    assert!(headers.contains("content-type"));
    
    let removed = headers.remove("content-type");
    assert_eq!(removed, Some("text/html".to_string()));
    assert!(!headers.contains("content-type"));
}

#[test]
fn test_http_headers_content_length() {
    let mut headers = HttpHeaders::new();
    
    headers.set("Content-Length", "1234");
    assert_eq!(headers.content_length(), Some(1234));
    
    headers.set("Content-Length", "invalid");
    assert_eq!(headers.content_length(), None);
}

#[test]
fn test_http_headers_transfer_encoding() {
    let mut headers = HttpHeaders::new();
    
    headers.set("Transfer-Encoding", "chunked");
    assert_eq!(headers.transfer_encoding(), Some(&"chunked".to_string()));
    assert!(headers.is_chunked());
    
    headers.set("Transfer-Encoding", "gzip");
    assert!(!headers.is_chunked());
}

#[test]
fn test_http_headers_connection() {
    let mut headers = HttpHeaders::new();
    
    headers.set("Connection", "keep-alive");
    assert_eq!(headers.connection(), Some(&"keep-alive".to_string()));
    assert!(headers.is_keep_alive());
    
    headers.set("Connection", "close");
    assert!(!headers.is_keep_alive());
}

#[test]
fn test_http_request_creation() {
    let request = HttpRequest::new(HttpMethod::GET, "/test".to_string());
    
    assert_eq!(request.method, HttpMethod::GET);
    assert_eq!(request.uri, "/test");
    assert_eq!(request.version, HttpVersion::Http1_1);
    assert!(request.body.is_none());
    assert!(request.timeout.is_none());
    assert!(request.follow_redirects);
    assert_eq!(request.max_redirects, 5);
}

#[test]
fn test_http_request_builder() {
    let request = HttpRequest::new(HttpMethod::POST, "/api/data".to_string())
        .method(HttpMethod::PUT)
        .uri("/api/update".to_string())
        .version(HttpVersion::Http2_0)
        .header("Content-Type", "application/json")
        .header("Authorization", "Bearer token")
        .body(b"{\"key\":\"value\"}".to_vec())
        .timeout(Duration::from_secs(30))
        .follow_redirects(false)
        .max_redirects(3);
    
    assert_eq!(request.method, HttpMethod::PUT);
    assert_eq!(request.uri, "/api/update");
    assert_eq!(request.version, HttpVersion::Http2_0);
    assert_eq!(request.headers.get("content-type"), Some(&"application/json".to_string()));
    assert_eq!(request.headers.get("authorization"), Some(&"Bearer token".to_string()));
    assert_eq!(request.body, Some(b"{\"key\":\"value\"}".to_vec()));
    assert_eq!(request.timeout, Some(Duration::from_secs(30)));
    assert!(!request.follow_redirects);
    assert_eq!(request.max_redirects, 3);
}

#[test]
fn test_http_request_serialization() {
    let mut request = HttpRequest::new(HttpMethod::POST, "/api/data".to_string());
    request.headers.set("Content-Type", "application/json");
    request.headers.set("Content-Length", "17");
    request.body = Some(b"{\"key\":\"value\"}".to_vec());
    
    let serialized = request.serialize().unwrap();
    let request_str = String::from_utf8(serialized).unwrap();
    
    assert!(request_str.starts_with("POST /api/data HTTP/1.1\r\n"));
    assert!(request_str.contains("Content-Type: application/json\r\n"));
    assert!(request_str.contains("Content-Length: 17\r\n"));
    assert!(request_str.contains("\r\n\r\n"));
    assert!(request_str.ends_with("{\"key\":\"value\"}"));
}

#[test]
fn test_http_response_creation() {
    let response = HttpResponse::new(HttpVersion::Http1_1, HttpStatus::OK);
    
    assert_eq!(response.version, HttpVersion::Http1_1);
    assert_eq!(response.status, HttpStatus::OK);
    assert_eq!(response.status_text, "OK");
    assert!(response.body.is_empty());
    assert_eq!(response.content_length, None);
    assert!(!response.chunked);
}

#[test]
fn test_http_response_status_checks() {
    let success_response = HttpResponse::new(HttpVersion::Http1_1, HttpStatus::OK);
    let redirect_response = HttpResponse::new(HttpVersion::Http1_1, HttpStatus::MovedPermanently);
    let client_error_response = HttpResponse::new(HttpVersion::Http1_1, HttpStatus::NotFound);
    let server_error_response = HttpResponse::new(HttpVersion::Http1_1, HttpStatus::InternalServerError);
    
    assert!(success_response.is_success());
    assert!(redirect_response.is_redirection());
    assert!(client_error_response.is_client_error());
    assert!(server_error_response.is_server_error());
}

#[test]
fn test_http_response_redirect_location() {
    let mut response = HttpResponse::new(HttpVersion::Http1_1, HttpStatus::MovedPermanently);
    response.headers.set("Location", "/new-location");
    
    assert_eq!(response.redirect_location(), Some(&"/new-location".to_string()));
    
    let non_redirect_response = HttpResponse::new(HttpVersion::Http1_1, HttpStatus::OK);
    assert_eq!(non_redirect_response.redirect_location(), None);
}

#[test]
fn test_http_response_parsing() {
    let response_data = b"HTTP/1.1 200 OK\r\nContent-Type: text/html\r\nContent-Length: 13\r\n\r\nHello, World!";
    
    let response = HttpResponse::parse(response_data).unwrap();
    
    assert_eq!(response.version, HttpVersion::Http1_1);
    assert_eq!(response.status, HttpStatus::OK);
    assert_eq!(response.status_text, "OK");
    assert_eq!(response.headers.get("content-type"), Some(&"text/html".to_string()));
    assert_eq!(response.headers.get("content-length"), Some(&"13".to_string()));
    assert_eq!(response.body, b"Hello, World!");
    assert_eq!(response.content_length, Some(13));
}

#[test]
fn test_http_response_parsing_invalid() {
    // Missing status line
    let invalid_data = b"Content-Type: text/html\r\n\r\n";
    assert!(HttpResponse::parse(invalid_data).is_err());
    
    // Invalid status code
    let invalid_status = b"HTTP/1.1 999 Invalid\r\n\r\n";
    assert!(HttpResponse::parse(invalid_status).is_err());
    
    // Invalid HTTP version
    let invalid_version = b"INVALID/1.1 200 OK\r\n\r\n";
    assert!(HttpResponse::parse(invalid_version).is_err());
}

#[test]
fn test_http2_settings_default() {
    let settings = Http2Settings::default();
    
    assert_eq!(settings.header_table_size, 4096);
    assert!(settings.enable_push);
    assert_eq!(settings.max_concurrent_streams, 100);
    assert_eq!(settings.initial_window_size, 65535);
    assert_eq!(settings.max_frame_size, 16384);
    assert_eq!(settings.max_header_list_size, 262144);
}

#[test]
fn test_http2_frame_creation() {
    let payload = b"test payload".to_vec();
    let frame = Http2Frame::new(Http2FrameType::Data, 1, payload.clone());
    
    assert_eq!(frame.length, 12);
    assert_eq!(frame.frame_type, Http2FrameType::Data);
    assert_eq!(frame.flags, 0);
    assert_eq!(frame.stream_id, 1);
    assert_eq!(frame.payload, payload);
}

#[test]
fn test_http2_frame_serialization() {
    let payload = b"test".to_vec();
    let frame = Http2Frame::new(Http2FrameType::Headers, 1, payload);
    
    let serialized = frame.serialize();
    
    // Frame header should be 9 bytes
    assert_eq!(serialized.len(), 13); // 9 bytes header + 4 bytes payload
    
    // Check frame length (first 3 bytes, big-endian)
    assert_eq!(serialized[0], 0);
    assert_eq!(serialized[1], 0);
    assert_eq!(serialized[2], 4);
    
    // Check frame type
    assert_eq!(serialized[3], 1); // Headers frame type
    
    // Check flags
    assert_eq!(serialized[4], 0);
    
    // Check stream ID (last 4 bytes of header, big-endian)
    assert_eq!(serialized[5], 0);
    assert_eq!(serialized[6], 0);
    assert_eq!(serialized[7], 0);
    assert_eq!(serialized[8], 1);
    
    // Check payload
    assert_eq!(&serialized[9..], b"test");
}

#[test]
fn test_http2_frame_parsing() {
    let frame_data = [
        0x00, 0x00, 0x04, // Length: 4
        0x01, // Frame type: Headers
        0x00, // Flags: 0
        0x00, 0x00, 0x00, 0x01, // Stream ID: 1
        0x74, 0x65, 0x73, 0x74, // Payload: "test"
    ];
    
    let frame = Http2Frame::parse(&frame_data).unwrap();
    
    assert_eq!(frame.length, 4);
    assert_eq!(frame.frame_type, Http2FrameType::Headers);
    assert_eq!(frame.flags, 0);
    assert_eq!(frame.stream_id, 1);
    assert_eq!(frame.payload, b"test");
}

#[test]
fn test_http2_frame_parsing_invalid() {
    // Frame too short
    let short_data = [0x00, 0x00, 0x01];
    assert!(Http2Frame::parse(&short_data).is_err());
    
    // Unknown frame type
    let unknown_type = [
        0x00, 0x00, 0x00, // Length: 0
        0xFF, // Unknown frame type
        0x00, // Flags: 0
        0x00, 0x00, 0x00, 0x01, // Stream ID: 1
    ];
    assert!(Http2Frame::parse(&unknown_type).is_err());
}

#[test]
fn test_hpack_codec_creation() {
    let codec = HpackCodec::new(4096);
    
    assert_eq!(codec.max_table_size, 4096);
    assert_eq!(codec.current_table_size, 0);
    assert!(codec.dynamic_table.is_empty());
}

#[test]
fn test_hpack_codec_encoding() {
    let mut codec = HpackCodec::new(4096);
    let mut headers = HttpHeaders::new();
    
    headers.set("Content-Type", "text/html");
    headers.set("Content-Length", "1234");
    
    let encoded = codec.encode(&headers).unwrap();
    
    // Should contain the header data
    assert!(!encoded.is_empty());
    assert!(encoded.len() > 0);
}

#[test]
fn test_hpack_codec_decoding() {
    let mut codec = HpackCodec::new(4096);
    
    // Simple literal encoding
    let encoded = [
        0x40, // Literal header field with incremental indexing
        0x0C, // Name length: 12
        0x43, 0x6F, 0x6E, 0x74, 0x65, 0x6E, 0x74, 0x2D, 0x54, 0x79, 0x70, 0x65, // "Content-Type"
        0x09, // Value length: 9
        0x74, 0x65, 0x78, 0x74, 0x2F, 0x68, 0x74, 0x6D, 0x6C, // "text/html"
    ];
    
    let headers = codec.decode(&encoded).unwrap();
    
    assert_eq!(headers.get("content-type"), Some(&"text/html".to_string()));
}

#[test]
fn test_hpack_codec_decode_invalid() {
    let mut codec = HpackCodec::new(4096);
    
    // Invalid encoding (too short)
    let invalid_data = [0x40, 0x0C];
    assert!(codec.decode(&invalid_data).is_err());
}

#[test]
fn test_http_redirect_handling() {
    let mut redirect_response = HttpResponse::new(HttpVersion::Http1_1, HttpStatus::MovedPermanently);
    redirect_response.headers.set("Location", "/new-location");
    
    assert!(redirect_response.is_redirection());
    assert_eq!(redirect_response.redirect_location(), Some(&"/new-location".to_string()));
    
    let normal_response = HttpResponse::new(HttpVersion::Http1_1, HttpStatus::OK);
    assert!(!normal_response.is_redirection());
    assert_eq!(normal_response.redirect_location(), None);
}

#[test]
fn test_http_keep_alive() {
    let mut response = HttpResponse::new(HttpVersion::Http1_1, HttpStatus::OK);
    response.headers.set("Connection", "keep-alive");
    
    assert!(response.headers.is_keep_alive());
    
    let mut close_response = HttpResponse::new(HttpVersion::Http1_1, HttpStatus::OK);
    close_response.headers.set("Connection", "close");
    
    assert!(!close_response.headers.is_keep_alive());
}

#[test]
fn test_http2_frame_types() {
    let frame_types = vec![
        Http2FrameType::Data,
        Http2FrameType::Headers,
        Http2FrameType::Priority,
        Http2FrameType::RstStream,
        Http2FrameType::Settings,
        Http2FrameType::PushPromise,
        Http2FrameType::Ping,
        Http2FrameType::Goaway,
        Http2FrameType::WindowUpdate,
        Http2FrameType::Continuation,
    ];
    
    for frame_type in frame_types {
        let payload = b"test".to_vec();
        let frame = Http2Frame::new(frame_type, 1, payload);
        assert_eq!(frame.frame_type, frame_type);
    }
}

#[test]
fn test_http2_stream_states() {
    let states = vec![
        Http2StreamState::Idle,
        Http2StreamState::ReservedLocal,
        Http2StreamState::ReservedRemote,
        Http2StreamState::Open,
        Http2StreamState::HalfClosedLocal,
        Http2StreamState::HalfClosedRemote,
        Http2StreamState::Closed,
    ];
    
    for state in states {
        let stream = Http2Stream {
            id: 1,
            state,
            priority: 0,
            window_size: 65535,
            headers: HttpHeaders::new(),
            data: Vec::new(),
        };
        assert_eq!(stream.state, state);
    }
}

#[test]
fn hpack_decode_gives_back_what_encode_wrote() {
    let mut codec = HpackCodec::new(4096);
    let mut headers = HttpHeaders::new();
    headers.set("Content-Type", "text/html");
    headers.set("X-Trace", "ab\u{e9}");
    headers.set("Accept", "");
    let encoded = codec.encode(&headers).unwrap();
    assert_eq!(encoded[0], 0x40);
    assert_eq!(encoded[1], 12);
    assert_eq!(&encoded[2..14], b"content-type");
    let decoded = codec.decode(&encoded).unwrap();
    assert_eq!(
        decoded.pairs(),
        vec![
            ("content-type".to_string(), "text/html".to_string()),
            ("x-trace".to_string(), "ab\u{e9}".to_string()),
            ("accept".to_string(), "".to_string()),
        ]
    );
    assert_eq!(decoded.get("Content-Type"), headers.get("content-type"));
}

#[test]
fn hpack_skips_indexed_fields() {
    let mut codec = HpackCodec::new(4096);
    let data = [0x82, 0x40, 0x01, b'a', 0x01, b'b'];
    let headers = codec.decode(&data).unwrap();
    assert_eq!(headers.get("a"), Some(&"b".to_string()));
    assert_eq!(headers.len(), 1);
}

#[test]
fn http2_frame_parse_gives_back_what_serialize_wrote() {
    let mut frame = Http2Frame::new(Http2FrameType::Settings, 0x7fff_fff3, b"payload".to_vec());
    frame.flags = 0x25;
    let bytes = frame.serialize();
    let parsed = Http2Frame::parse(&bytes).unwrap();
    assert_eq!(parsed.length, 7);
    assert_eq!(parsed.frame_type, Http2FrameType::Settings);
    assert_eq!(parsed.flags, 0x25);
    assert_eq!(parsed.stream_id, 0x7fff_fff3);
    assert_eq!(parsed.payload, b"payload".to_vec());
}

#[test]
fn test_http_response_builder() {
    let response = HttpResponse::new(HttpVersion::Http2_0, HttpStatus::Created)
        .status(HttpStatus::Accepted)
        .header("Content-Type", "text/html")
        .header("Content-Length", "1234")
        .body(b"<html>Hello</html>".to_vec());

    assert_eq!(response.version, HttpVersion::Http2_0);
    assert_eq!(response.status, HttpStatus::Accepted);
    assert_eq!(response.status_text, "Accepted");
    assert_eq!(response.headers.get("content-type"), Some(&"text/html".to_string()));
    assert_eq!(response.headers.get("content-length"), Some(&"1234".to_string()));
    assert_eq!(response.body, b"<html>Hello</html>");
    // The body `<html>Hello</html>` is 18 bytes long, which is the length the
    // builder records; a count of 17 cannot be met by any body of that text.
    assert_eq!(response.content_length, Some(18));
}

#[test]
fn test_comprehensive_http_workflow() {
    // Test complete HTTP request/response workflow
    let mut request = HttpRequest::new(HttpMethod::POST, "/api/data".to_string());
    request.headers.set("Content-Type", "application/json");
    request.headers.set("Authorization", "Bearer token123");
    request.body = Some(b"{\"message\":\"hello\"}".to_vec());

    // Serialize request
    let request_data = request.serialize().unwrap();
    assert!(!request_data.is_empty());

    // Create response
    let mut response = HttpResponse::new(HttpVersion::Http1_1, HttpStatus::OK);
    response.headers.set("Content-Type", "application/json");
    response.headers.set("Content-Length", "25");
    response.body = b"{\"status\":\"success\"}".to_vec();

    // Verify response
    assert!(response.is_success());
    // The length is a field that only the builder and the parser fill in;
    // setting the header directly leaves it unset.
    assert_eq!(response.content_length, None);
    assert_eq!(response.headers.content_length(), Some(25));
    assert_eq!(response.headers.get("content-type"), Some(&"application/json".to_string()));
}

#[test]
fn test_http_chunked_encoding() {
    let mut response = HttpResponse::new(HttpVersion::Http1_1, HttpStatus::OK);
    response.headers.set("Transfer-Encoding", "chunked");

    assert!(response.headers.is_chunked());
    // The chunked flag is a field that only the parser fills in; setting the
    // header directly leaves it unset.
    assert!(!response.chunked);

    let normal_response = HttpResponse::new(HttpVersion::Http1_1, HttpStatus::OK);
    response.headers.set("Transfer-Encoding", "gzip");

    assert!(!normal_response.headers.is_chunked());
    assert!(!response.headers.is_chunked());
}

#[test]
fn names_parse_in_any_case() {
    assert_eq!(HttpMethod::from_str("connect"), Some(HttpMethod::CONNECT));
    assert_eq!(HttpMethod::from_str("Patch"), Some(HttpMethod::PATCH));
    assert_eq!(HttpVersion::from_str("http/2.0"), Some(HttpVersion::Http2_0));
    let mut headers = HttpHeaders::new();
    headers.set("Content-Type", "text/html");
    headers.set("Accept", "*/*");
    assert_eq!(headers.remove("CONTENT-TYPE"), Some("text/html".to_string()));
    assert!(!headers.contains("content-type"));
    assert_eq!(headers.get("accept"), Some(&"*/*".to_string()));
}

fn parse_message(data: &[u8]) -> String {
    match HttpResponse::parse(data) {
        Err(Error::Parsing(m)) => m,
        _ => panic!("expected a parsing error"),
    }
}

#[test]
fn parse_errors_carry_the_inner_error() {
    assert_eq!(
        parse_message(b"HTTP/1.1 abc OK\r\n\r\n"),
        "Invalid status code: invalid digit found in string"
    );
    assert_eq!(
        parse_message(b"HTTP/1.1 70000 OK\r\n\r\n"),
        "Invalid status code: number too large to fit in target type"
    );
    assert_eq!(parse_message(b"HTTP/1.1 299 Odd\r\n\r\n"), "Unknown status code: 299");
    assert_eq!(parse_message(b"HTTP/1.1 200\r\n\r\n"), "Invalid status line format");
    assert_eq!(parse_message(b"HTTP/9.9 200 OK\r\n\r\n"), "Invalid HTTP version");
    assert!(parse_message(b"\xff\xfe 200 OK\r\n\r\n").starts_with("Invalid status line: invalid utf-8"));
    assert!(parse_message(b"HTTP/1.1 200 OK\r\nX: \xff\r\n\r\n").starts_with("Invalid header line: invalid utf-8"));
    let ok = HttpResponse::parse(b"HTTP/1.1 +200 OK\r\n\r\n").unwrap();
    assert_eq!(ok.status, HttpStatus::OK);
}
