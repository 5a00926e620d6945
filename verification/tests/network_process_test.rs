use networking::error::Error;
use networking::network_process::{
    init, CacheManager, NetworkConfig, NetworkProcessManager, NetworkResponse, RequestState,
};
use networking::table::KeyedTable;
use networking::time::Duration;

#[test]
fn test_network_process_manager_creation() {
    let config = NetworkConfig::default();
    let manager = NetworkProcessManager::new(config);
    assert!(manager.is_ok());
}

#[test]
fn test_request_creation() {
    let config = NetworkConfig::default();
    let mut manager = NetworkProcessManager::new(config).unwrap();

    let tab_id = 1;
    let request_id = manager.create_request(tab_id, "https://example.com".to_string(), "GET".to_string());
    assert!(request_id.is_ok());

    let request_id = request_id.unwrap();
    assert!(manager.get_request(&request_id).is_some());
}

#[test]
fn test_request_execution() {
    let config = NetworkConfig::default();
    let mut manager = NetworkProcessManager::new(config).unwrap();

    let tab_id = 1;
    let request_id = manager
        .create_request(tab_id, "https://example.com".to_string(), "GET".to_string())
        .unwrap();

    let response = manager.execute_request(&request_id);
    assert!(response.is_ok());

    let response = response.unwrap();
    assert_eq!(response.status_code, 200);
}

#[test]
fn test_cache_management() {
    let config = NetworkConfig::default();
    let mut cache_manager = CacheManager::new(&config).unwrap();
    let response = NetworkResponse {
        status_code: 200,
        headers: KeyedTable::new(),
        body: b"test".to_vec(),
        content_type: "text/plain".to_string(),
        content_length: 4,
        response_time: Duration::from_millis(10),
    };

    // Test cache storage
    let result = cache_manager.put("https://example.com", &response);
    assert!(result.is_ok());

    // Test cache retrieval
    let cached = cache_manager.get("https://example.com").unwrap();
    assert!(cached.is_some());

    let cached = cached.unwrap();
    assert_eq!(cached.status_code, 200);
    assert_eq!(cached.body, b"test");
}

#[test]
fn test_configuration_update() {
    let config = NetworkConfig::default();
    let mut manager = NetworkProcessManager::new(config).unwrap();

    let mut new_config = NetworkConfig::default();
    new_config.max_connections = 200;
    new_config.request_timeout = 120;

    let result = manager.update_config(new_config);
    assert!(result.is_ok());
}

#[test]
fn test_statistics() {
    let config = NetworkConfig::default();
    let manager = NetworkProcessManager::new(config).unwrap();

    let stats = manager.get_stats();
    assert_eq!(stats.total_requests, 0);
    assert_eq!(stats.successful_requests, 0);
    assert_eq!(stats.failed_requests, 0);
}

#[test]
fn requests_are_numbered_in_order() {
    let mut manager = init(NetworkConfig::default()).unwrap();
    let a = manager.create_request(7, "https://a.example".to_string(), "GET".to_string()).unwrap();
    let b = manager.create_request(7, "https://b.example".to_string(), "POST".to_string()).unwrap();
    assert_eq!(a, "req_1");
    assert_eq!(b, "req_2");
    let q = manager.get_request(&b).unwrap();
    assert_eq!(q.tab_id, 7);
    assert_eq!(q.url, "https://b.example");
    assert_eq!(q.method, "POST");
    assert!(matches!(q.state, RequestState::Preparing));
    assert!(q.response.is_none());
}

#[test]
fn a_second_fetch_of_a_url_is_served_from_the_cache() {
    let mut manager = NetworkProcessManager::new(NetworkConfig::default()).unwrap();
    let a = manager.create_request(1, "https://example.com".to_string(), "GET".to_string()).unwrap();
    let b = manager.create_request(2, "https://example.com".to_string(), "GET".to_string()).unwrap();

    let first = manager.execute_request(&a).unwrap();
    assert_eq!(first.body, b"<html><body><h1>Hello from Matte Browser!</h1></body></html>".to_vec());
    assert_eq!(first.content_type, "text/html");
    assert_eq!(first.content_length, 0);
    let stats = manager.get_stats();
    assert_eq!((stats.cache_hits, stats.cache_misses, stats.successful_requests), (0, 1, 1));
    assert_eq!(stats.avg_response_time, Duration::from_millis(100));

    let second = manager.execute_request(&b).unwrap();
    assert_eq!(second.body, first.body);
    let stats = manager.get_stats();
    assert_eq!((stats.cache_hits, stats.cache_misses, stats.successful_requests), (1, 1, 1));

    let done = manager.get_request(&b).unwrap();
    assert!(matches!(done.state, RequestState::Completed));
    assert_eq!(done.response.as_ref().unwrap().status_code, 200);
}

#[test]
fn an_unknown_request_is_refused() {
    let mut manager = NetworkProcessManager::new(NetworkConfig::default()).unwrap();
    match manager.execute_request("req_9") {
        Err(Error::Config(m)) => assert_eq!(m, "Request req_9 not found"),
        _ => panic!("expected a configuration error"),
    }
}

#[test]
fn cancelling_and_shutting_down() {
    let mut manager = NetworkProcessManager::new(NetworkConfig::default()).unwrap();
    let a = manager.create_request(1, "https://example.com".to_string(), "GET".to_string()).unwrap();
    assert!(manager.cancel_request(&a).is_ok());
    assert!(matches!(manager.get_request(&a).unwrap().state, RequestState::Cancelled));
    assert!(manager.cancel_request("req_missing").is_ok());
    assert!(manager.shutdown().is_ok());
    assert!(manager.get_request(&a).is_none());
}

#[test]
fn the_disk_cache_finds_nothing() {
    let mut config = NetworkConfig::default();
    config.disk_cache_enabled = true;
    let mut caches = CacheManager::new(&config).unwrap();
    assert!(caches.get("https://nowhere.example").unwrap().is_none());
    config.disk_cache_enabled = false;
    assert!(caches.update_config(&config).is_ok());
    assert!(caches.get("https://nowhere.example").unwrap().is_none());
}
