use networking::client::ConnectionPoolStats;
use networking::cache::extract_domain;
use networking::client::{apply_defaults, parse_uri, redirect_target};
use networking::headers::HttpHeaders;
use networking::http::{HttpMethod, HttpRequest, HttpResponse, HttpStatus, HttpVersion};
use networking::time::Duration;

#[test]
fn test_uri_parsing() {
    assert_eq!(parse_uri("http://example.com").unwrap(), ("example.com".to_string(), 80));
    assert_eq!(parse_uri("http://example.com:8080").unwrap(), ("example.com".to_string(), 8080));
    assert_eq!(parse_uri("https://example.com").unwrap(), ("example.com".to_string(), 443));
    assert_eq!(parse_uri("https://example.com:8443").unwrap(), ("example.com".to_string(), 8443));
    assert_eq!(parse_uri("example.com").unwrap(), ("example.com".to_string(), 80));
    assert_eq!(parse_uri("example.com:8080").unwrap(), ("example.com".to_string(), 8080));
}

#[test]
fn test_uri_parsing_invalid() {
    assert!(parse_uri("http://example.com:invalid").is_err());
    assert!(parse_uri("https://example.com:99999").is_err());
    let err = parse_uri("example.com:").unwrap_err();
    assert_eq!(err.message(), "Parsing error: Invalid port: cannot parse integer from empty string");
    let err = parse_uri("example.com:70000").unwrap_err();
    assert_eq!(err.message(), "Parsing error: Invalid port: number too large to fit in target type");
}

#[test]
fn uri_port_may_carry_a_plus_sign() {
    assert_eq!(parse_uri("http://h:+81").unwrap(), ("h".to_string(), 81));
}

#[test]
fn client_defaults_fill_what_the_request_lacks() {
    let mut defaults = HttpHeaders::new();
    defaults.set("User-Agent", "Matte-Browser/1.0");
    defaults.set("Accept", "*/*");
    let request = HttpRequest::new(HttpMethod::GET, "/".to_string()).header("accept", "text/html");
    let prepared = apply_defaults(&defaults, Duration::from_secs(30), request);
    assert_eq!(prepared.headers.get("user-agent"), Some(&"Matte-Browser/1.0".to_string()));
    assert_eq!(prepared.headers.get("accept"), Some(&"text/html".to_string()));
    assert_eq!(prepared.headers.len(), 2);
    assert_eq!(prepared.timeout, Some(Duration::from_secs(30)));

    let request = HttpRequest::new(HttpMethod::GET, "/".to_string()).timeout(Duration::from_secs(5));
    let prepared = apply_defaults(&defaults, Duration::from_secs(30), request);
    assert_eq!(prepared.timeout, Some(Duration::from_secs(5)));
}

#[test]
fn redirects_are_followed_up_to_the_limit() {
    let response = HttpResponse::new(HttpVersion::Http1_1, HttpStatus::Found).header("Location", "/next");
    let request = HttpRequest::new(HttpMethod::GET, "/".to_string()).max_redirects(2);
    assert_eq!(redirect_target(&response, &request, 0), Some("/next".to_string()));
    assert_eq!(redirect_target(&response, &request, 1), Some("/next".to_string()));
    assert_eq!(redirect_target(&response, &request, 2), None);
    let request = HttpRequest::new(HttpMethod::GET, "/".to_string()).follow_redirects(false);
    assert_eq!(redirect_target(&response, &request, 0), None);
    let ok = HttpResponse::new(HttpVersion::Http1_1, HttpStatus::OK).header("Location", "/next");
    let request = HttpRequest::new(HttpMethod::GET, "/".to_string());
    assert_eq!(redirect_target(&ok, &request, 0), None);
}

#[test]
fn cache_domain_of_a_url() {
    assert_eq!(extract_domain("https://example.com/page"), "example.com");
    assert_eq!(extract_domain("http://api.example.com:8080/x"), "api.example.com");
    assert_eq!(extract_domain("not a url"), "unknown");
    assert_eq!(extract_domain("data:text/plain,hi"), "unknown");
}

#[test]
fn pool_statistics_follow_the_pool() {
    let mut stats = ConnectionPoolStats {
        total_connections: 0,
        active_connections: 0,
        idle_connections: 0,
        avg_creation_time: Duration::from_millis(0),
        reuse_count: 0,
    };
    stats.record_new_connection(Duration::from_millis(30));
    assert_eq!((stats.total_connections, stats.active_connections), (1, 1));
    assert_eq!(stats.avg_creation_time, Duration::from_millis(15));
    assert!(stats.record_return(0, 2));
    assert_eq!((stats.active_connections, stats.idle_connections), (0, 1));
    assert!(!stats.record_return(2, 2));
    assert_eq!((stats.active_connections, stats.idle_connections), (0, 1));
    stats.record_reuse();
    assert_eq!((stats.reuse_count, stats.active_connections), (1, 1));
    assert_eq!(Duration::from_parts(1, 1).half(), Duration::from_parts(0, 500_000_000));
}
