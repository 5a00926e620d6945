use networking::error::Error;
use networking::isolation::{extract_origin, SecurityLevel, SiteIsolationManager, ViolationType};

#[test]
fn test_site_isolation_manager_creation() {
    let manager = SiteIsolationManager::new("https://example.com");
    assert!(manager.is_ok());
}

#[test]
fn site_isolation_test_security_context_creation() {
    let context = SiteIsolationManager::create_security_context("https://example.com");
    assert!(context.is_ok());

    let context = context.unwrap();
    assert_eq!(context.security_level as u8, SecurityLevel::Secure as u8);
    assert_eq!(context.origin, "https://example.com");
}

#[test]
fn test_cross_origin_request_check() {
    let mut manager = SiteIsolationManager::new("https://example.com").unwrap();
    manager.initialize().unwrap();

    // Should allow cross-origin requests for secure sites
    let allowed = manager.check_cross_origin_request("https://other.com", "fetch").unwrap();
    assert!(allowed);

    // Should block cross-origin requests for insecure sites
    let mut manager = SiteIsolationManager::new("http://example.com").unwrap();
    manager.initialize().unwrap();

    let allowed = manager.check_cross_origin_request("https://other.com", "fetch").unwrap();
    assert!(!allowed);
}

#[test]
fn test_permission_check() {
    let mut manager = SiteIsolationManager::new("https://example.com").unwrap();
    manager.initialize().unwrap();

    // Should allow notifications for secure sites
    let allowed = manager.check_permission("notifications").unwrap();
    assert!(allowed);

    // Should block fullscreen for secure sites
    let allowed = manager.check_permission("fullscreen").unwrap();
    assert!(!allowed);
}

#[test]
fn test_origin_extraction() {
    let origin = extract_origin("https://example.com:8080/path").unwrap();
    assert_eq!(origin, "https://example.com:8080");

    let origin = extract_origin("https://example.com/path").unwrap();
    assert_eq!(origin, "https://example.com");
}

#[test]
fn levels_and_permissions_follow_the_scheme() {
    let trusted = SiteIsolationManager::create_security_context("file://server/share/index.html").unwrap();
    assert_eq!(trusted.security_level, SecurityLevel::Trusted);
    assert_eq!(trusted.allowed_permissions, vec!["fullscreen", "notifications", "geolocation"]);
    assert!(trusted.blocked_permissions.is_empty());
    assert!(trusted.cross_origin_restrictions.allow_cross_origin_requests);

    let insecure = SiteIsolationManager::create_security_context("http://example.com").unwrap();
    assert_eq!(insecure.security_level, SecurityLevel::Insecure);
    assert!(insecure.allowed_permissions.is_empty());
    assert_eq!(insecure.blocked_permissions, vec!["fullscreen", "notifications", "geolocation"]);
    assert!(!insecure.cross_origin_restrictions.allow_cross_origin_requests);

    let dangerous = SiteIsolationManager::create_security_context("ftp://example.com").unwrap();
    assert_eq!(dangerous.security_level, SecurityLevel::Dangerous);
    assert_eq!(dangerous.blocked_permissions.len(), 5);
    assert_eq!(dangerous.origin, "ftp://example.com");
}

#[test]
fn a_url_without_a_host_has_no_origin() {
    match extract_origin("not a url") {
        Err(Error::Config(m)) => assert_eq!(m, "Could not extract origin from URL: not a url"),
        _ => panic!("expected a configuration error"),
    }
    assert!(SiteIsolationManager::new("mailto:someone@example.com").is_err());
}

#[test]
fn initialize_sets_the_default_policy() {
    let mut manager = SiteIsolationManager::new("https://example.com").unwrap();
    assert!(manager.security_context().csp.is_none());
    manager.initialize().unwrap();
    let c = manager.security_context();
    assert_eq!(
        c.csp.as_deref(),
        Some("default-src 'self'; script-src 'self' 'unsafe-inline'; style-src 'self' 'unsafe-inline';")
    );
    assert!(c.cross_origin_restrictions.allow_cross_origin_requests);
    assert!(!c.cross_origin_restrictions.allow_cross_origin_embedding);
}

#[test]
fn refusals_are_recorded() {
    let mut manager = SiteIsolationManager::new("http://example.com").unwrap();
    manager.initialize().unwrap();
    assert!(!manager.check_permission("camera").unwrap());
    assert!(!manager.check_cross_origin_request("https://other.com", "fetch").unwrap());
    let v = manager.get_security_violations();
    assert_eq!(v.len(), 2);
    assert_eq!(v[0].violation_type, ViolationType::PermissionViolation);
    assert_eq!(v[0].details, "Permission 'camera' denied");
    assert!(v[0].blocked);
    assert_eq!(v[1].violation_type, ViolationType::CrossOrigin);
    assert_eq!(v[1].details, "Cross-origin fetch request to https://other.com blocked");
}

#[test]
fn channels_carry_messages() {
    let mut manager = SiteIsolationManager::new("https://example.com").unwrap();
    manager.initialize().unwrap();
    let id = manager.create_cross_origin_channel("https://other.com").unwrap();
    assert!(id.starts_with("channel_"));
    assert!(id.len() > 8 && id[8..].chars().all(|c| c.is_ascii_digit()));
    assert!(manager.send_cross_origin_message(&id, serde_json::Value::from("hello")).is_ok());
    match manager.send_cross_origin_message("channel_none", serde_json::Value::from(1)) {
        Err(Error::Security(m)) => assert_eq!(m, "Cross-origin channel not found"),
        _ => panic!("expected a security error"),
    }
    assert!(manager.get_security_violations().is_empty());
}

#[test]
fn an_insecure_site_opens_no_channel() {
    let mut manager = SiteIsolationManager::new("http://example.com").unwrap();
    manager.initialize().unwrap();
    match manager.create_cross_origin_channel("https://other.com") {
        Err(Error::Security(m)) => assert_eq!(m, "Cross-origin communication not allowed"),
        _ => panic!("expected a security error"),
    }
    let v = manager.get_security_violations();
    assert_eq!(v.len(), 1);
    assert_eq!(v[0].details, "Cross-origin communication request to https://other.com blocked");
}

#[test]
fn loading_stays_within_the_origin() {
    let mut manager = SiteIsolationManager::new("https://example.com").unwrap();
    manager.initialize().unwrap();
    assert!(manager.load_url("https://example.com/page").is_ok());
    assert_eq!(manager.site_url(), "https://example.com/page");
    // The fresh context of the page replaces the initialised one.
    assert_eq!(manager.security_context().url, "https://example.com/page");
    assert!(manager.security_context().csp.is_none());

    match manager.load_url("https://other.com/") {
        Err(Error::Security(m)) => {
            assert_eq!(m, "URL origin https://other.com does not match site origin https://example.com")
        }
        _ => panic!("expected a security error"),
    }
    assert_eq!(manager.site_url(), "https://example.com/page");
}
