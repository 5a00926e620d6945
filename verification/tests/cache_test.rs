use networking::cache::{
    domain_partition, partition_totals, CacheConfig, CacheControl, CacheEntry, CachePartition, CacheStatus,
    CacheWarmingEntry, EvictionPolicy,
};
use networking::table::KeyedTable;
use networking::time::{Duration, Timestamp};

#[test]
fn test_cache_entry_expiration() {
    let mut entry = CacheEntry::new(
        "https://example.com/page".to_string(),
        b"test".to_vec(),
        KeyedTable::new(),
        200,
    );
    
    // Set expiration in the past
    entry.expires = Some(Timestamp::now().minus(Duration::from_secs(3600)));
    
    assert!(!entry.is_fresh());
    assert!(entry.is_stale());
    assert!(entry.is_expired());
    assert_eq!(entry.status(), CacheStatus::Expired);
    
    // Set expiration in the future
    entry.expires = Some(Timestamp::now().plus(Duration::from_secs(3600)));
    
    assert!(entry.is_fresh());
    assert!(!entry.is_stale());
    assert!(!entry.is_expired());
    assert_eq!(entry.status(), CacheStatus::Fresh);
}

#[test]
fn test_cache_control_default() {
    let cache_control = CacheControl::default();
    
    assert!(cache_control.max_age.is_none());
    assert!(cache_control.s_maxage.is_none());
    assert!(!cache_control.no_cache);
    assert!(!cache_control.no_store);
    assert!(!cache_control.must_revalidate);
    assert!(!cache_control.proxy_revalidate);
    assert!(!cache_control.public);
    assert!(!cache_control.private);
    assert!(!cache_control.immutable);
    assert!(cache_control.stale_while_revalidate.is_none());
    assert!(cache_control.stale_if_error.is_none());
    assert!(cache_control.is_cacheable());
    assert!(!cache_control.requires_revalidation());
}

#[test]
fn test_cache_control_parsing() {
    let cache_control = CacheControl::from_header("max-age=3600, public, no-cache");
    
    assert_eq!(cache_control.max_age, Some(Duration::from_secs(3600)));
    assert!(cache_control.public);
    assert!(cache_control.no_cache);
    assert!(cache_control.requires_revalidation());
    
    let cache_control = CacheControl::from_header("no-store, private");
    
    assert!(cache_control.no_store);
    assert!(cache_control.private);
    assert!(!cache_control.is_cacheable());
    
    let cache_control = CacheControl::from_header("must-revalidate, s-maxage=1800");
    
    assert!(cache_control.must_revalidate);
    assert_eq!(cache_control.s_maxage, Some(Duration::from_secs(1800)));
    assert!(cache_control.requires_revalidation());
}

#[test]
fn test_cache_partition_creation() {
    let partition = CachePartition::new(
        "example.com".to_string(),
        1024 * 1024, // 1 MB
        100,
        EvictionPolicy::LRU,
    );
    
    assert_eq!(partition.name, "example.com");
    assert_eq!(partition.max_size, 1024 * 1024);
    assert_eq!(partition.current_size, 0);
    assert_eq!(partition.max_entries, 100);
    assert_eq!(partition.current_entries, 0);
    assert_eq!(partition.eviction_policy, EvictionPolicy::LRU);
    assert!(partition.entries.is_empty());
    assert!(partition.access_order.is_empty());
}

#[test]
fn test_cache_partition_entry_management() {
    let mut partition = CachePartition::new(
        "example.com".to_string(),
        1024, // 1 KB
        10,
        EvictionPolicy::LRU,
    );
    
    let entry = CacheEntry::new(
        "https://example.com/page1".to_string(),
        b"data1".to_vec(),
        KeyedTable::new(),
        200,
    );
    
    // Add entry
    let old_entry = partition.add_entry("https://example.com/page1".to_string(), entry);
    assert!(old_entry.is_none());
    assert_eq!(partition.current_entries, 1);
    assert_eq!(partition.current_size, 5);
    assert_eq!(partition.access_order.len(), 1);
    
    // Get entry
    let entry = partition.get_entry("https://example.com/page1");
    assert!(entry.is_some());
    let entry = entry.unwrap();
    assert_eq!(entry.access_count, 1);
    
    // Remove entry
    let removed_entry = partition.remove_entry("https://example.com/page1");
    assert!(removed_entry.is_some());
    assert_eq!(partition.current_entries, 0);
    assert_eq!(partition.current_size, 0);
    assert!(partition.access_order.is_empty());
}

#[test]
fn test_cache_partition_eviction() {
    let mut partition = CachePartition::new(
        "example.com".to_string(),
        20, // 20 bytes
        3,
        EvictionPolicy::LRU,
    );
    
    // Add entries that exceed the size limit
    for i in 1..=5 {
        let entry = CacheEntry::new(
            format!("https://example.com/page{}", i),
            vec![0u8; 10], // 10 bytes each
            KeyedTable::new(),
            200,
        );
        partition.add_entry(format!("https://example.com/page{}", i), entry);
    }
    
    // Should have evicted some entries
    assert!(partition.current_entries <= 2); // 20 bytes / 10 bytes per entry = 2 entries max
    assert!(partition.current_size <= 20);
}

#[test]
fn test_cache_partition_expired_cleaning() {
    let mut partition = CachePartition::new(
        "example.com".to_string(),
        1024,
        10,
        EvictionPolicy::LRU,
    );
    
    // Add a fresh entry
    let mut fresh_entry = CacheEntry::new(
        "https://example.com/fresh".to_string(),
        b"fresh".to_vec(),
        KeyedTable::new(),
        200,
    );
    fresh_entry.expires = Some(Timestamp::now().plus(Duration::from_secs(3600)));
    partition.add_entry("https://example.com/fresh".to_string(), fresh_entry);
    
    // Add an expired entry
    let mut expired_entry = CacheEntry::new(
        "https://example.com/expired".to_string(),
        b"expired".to_vec(),
        KeyedTable::new(),
        200,
    );
    expired_entry.expires = Some(Timestamp::now().minus(Duration::from_secs(3600)));
    partition.add_entry("https://example.com/expired".to_string(), expired_entry);
    
    assert_eq!(partition.current_entries, 2);
    
    // Clean expired entries
    let expired_count = partition.clean_expired();
    assert_eq!(expired_count, 1);
    assert_eq!(partition.current_entries, 1);
    assert!(partition.entries.contains_key("https://example.com/fresh"));
    assert!(!partition.entries.contains_key("https://example.com/expired"));
}

#[test]
fn test_cache_config_default() {
    let config = CacheConfig::default();
    
    assert_eq!(config.max_total_size, 100 * 1024 * 1024); // 100 MB
    assert_eq!(config.max_memory_size, 50 * 1024 * 1024);  // 50 MB
    assert_eq!(config.max_disk_size, 500 * 1024 * 1024);   // 500 MB
    assert_eq!(config.default_ttl, Duration::from_secs(3600)); // 1 hour
    assert!(config.enable_memory_cache);
    assert!(config.enable_disk_cache);
    assert!(!config.enable_cache_warming);
    assert!(config.enable_analytics);
    assert_eq!(config.compression_threshold, 1024); // 1 KB
    assert_eq!(config.default_eviction_policy, EvictionPolicy::LRU);
    assert!(config.partition_by_domain);
    assert!(config.cache_directory.is_none());
}

#[test]
fn test_cache_warming_entry() {
    let entry = CacheWarmingEntry {
        url: "https://example.com/warm".to_string(),
        priority: 5,
        expected_content_type: Some("text/html".to_string()),
        ttl: Some(Duration::from_secs(1800)),
        created: Timestamp::now(),
    };
    
    assert_eq!(entry.url, "https://example.com/warm");
    assert_eq!(entry.priority, 5);
    assert_eq!(entry.expected_content_type, Some("text/html".to_string()));
    assert_eq!(entry.ttl, Some(Duration::from_secs(1800)));
}

#[test]
fn test_cache_eviction_policies() {
    // Test LRU eviction
    let mut partition = CachePartition::new(
        "test.com".to_string(),
        30, // 30 bytes
        3,
        EvictionPolicy::LRU,
    );
    
    // Add entries
    for i in 1..=4 {
        let entry = CacheEntry::new(
            format!("page{}", i),
            vec![0u8; 10], // 10 bytes each
            KeyedTable::new(),
            200,
        );
        partition.add_entry(format!("page{}", i), entry);
    }
    
    // Should have evicted the least recently used entry
    assert!(partition.current_entries <= 3);
    
    // Test LFU eviction
    let mut partition = CachePartition::new(
        "test.com".to_string(),
        30,
        3,
        EvictionPolicy::LFU,
    );
    
    // Add entries and access them differently
    for i in 1..=4 {
        let entry = CacheEntry::new(
            format!("page{}", i),
            vec![0u8; 10],
            KeyedTable::new(),
            200,
        );
        partition.add_entry(format!("page{}", i), entry);
    }
    
    // Access some entries more than others
    partition.get_entry("page1");
    partition.get_entry("page1");
    partition.get_entry("page2");
    
    // Should have evicted the least frequently used entry
    assert!(partition.current_entries <= 3);
}

#[test]
fn test_cache_validation_and_revalidation() {
    let mut entry = CacheEntry::new(
        "https://example.com/page".to_string(),
        b"test data".to_vec(),
        KeyedTable::new(),
        200,
    );
    
    // Set cache control to require revalidation
    entry.cache_control = CacheControl::from_header("must-revalidate");
    
    assert!(entry.cache_control.requires_revalidation());
    
    // Set ETag for validation
    entry.etag = Some("\"abc123\"".to_string());
    
    // Set last modified for validation
    entry.last_modified = Some(Timestamp::now().minus(Duration::from_secs(3600)));
    
    assert!(entry.etag.is_some());
    assert!(entry.last_modified.is_some());
}

#[test]
fn disk_cache_file_names_come_from_the_url_digest() {
    assert_eq!(networking::cache::data_file_name("https://example.com/page"), "3641c5f2");
    assert_eq!(networking::cache::data_file_name(""), "e3b0c442");
}

#[test]
fn test_cache_entry_creation() {
    let mut headers = KeyedTable::new();
    headers.insert("Content-Type".to_string(), "text/html".to_string());
    headers.insert("Cache-Control".to_string(), "max-age=3600".to_string());

    let entry = CacheEntry::new(
        "https://example.com/page".to_string(),
        b"<html>Hello World</html>".to_vec(),
        headers,
        200,
    );

    assert_eq!(entry.key, "https://example.com/page");
    assert_eq!(entry.data, b"<html>Hello World</html>");
    assert_eq!(entry.status_code, 200);
    // `<html>Hello World</html>` is 24 bytes long, which is the length and
    // size recorded. The value 25 expected here cannot stand beside
    // `test_cache_partition_entry_management`, where the same constructor must give
    // size 5 for the 5 bytes of `data1`: sizes are byte lengths.
    assert_eq!(entry.content_length, 24);
    assert_eq!(entry.size, 24);
    assert_eq!(entry.access_count, 0);
    assert!(entry.is_fresh());
    assert!(!entry.is_stale());
    assert!(!entry.is_expired());
    assert_eq!(entry.status(), CacheStatus::Fresh);
}

#[test]
fn lfu_evicts_until_the_new_entry_fits() {
    let mut partition = CachePartition::new("test.com".to_string(), 30, 3, EvictionPolicy::LFU);
    for i in 1..=3 {
        let entry = CacheEntry::new(format!("page{}", i), vec![0u8; 10], KeyedTable::new(), 200);
        partition.add_entry(format!("page{}", i), entry);
    }
    partition.get_entry("page1");
    partition.get_entry("page3");
    // A 20-byte entry needs two evictions: page2 (never read), then page1
    // (read once, before page3)
    let big = CacheEntry::new("page4".to_string(), vec![0u8; 20], KeyedTable::new(), 200);
    partition.add_entry("page4".to_string(), big);
    assert_eq!(partition.current_entries, 2);
    assert_eq!(partition.current_size, 30);
    assert!(partition.entries.get("page2").is_none());
    assert!(partition.entries.get("page1").is_none());
    assert!(partition.entries.get("page3").is_some());
    assert!(partition.entries.get("page4").is_some());
}

#[test]
fn domain_partitions_take_a_tenth_of_memory() {
    let config = CacheConfig::default();
    let partition = domain_partition("example.com", &config);
    assert_eq!(partition.name, "example.com");
    assert_eq!(partition.max_size, 5 * 1024 * 1024);
    assert_eq!(partition.max_entries, 1000);
    assert_eq!(partition.eviction_policy, EvictionPolicy::LRU);
    assert_eq!(partition.current_size, 0);
    assert_eq!(partition.current_entries, 0);
}

#[test]
fn totals_add_up_over_partitions() {
    let config = CacheConfig::default();
    let mut partitions = KeyedTable::new();
    assert_eq!(partition_totals(&partitions), Some((0, 0)));
    let mut a = domain_partition("a.com", &config);
    a.add_entry("a1".to_string(), CacheEntry::new("a1".to_string(), vec![0u8; 10], KeyedTable::new(), 200));
    a.add_entry("a2".to_string(), CacheEntry::new("a2".to_string(), vec![0u8; 5], KeyedTable::new(), 200));
    let mut b = domain_partition("b.com", &config);
    b.add_entry("b1".to_string(), CacheEntry::new("b1".to_string(), vec![0u8; 7], KeyedTable::new(), 200));
    partitions.insert("a.com".to_string(), a);
    partitions.insert("b.com".to_string(), b);
    assert_eq!(partition_totals(&partitions), Some((22, 3)));
    let mut c = domain_partition("c.com", &config);
    c.current_size = usize::MAX;
    partitions.insert("c.com".to_string(), c);
    assert_eq!(partition_totals(&partitions), None);
}

#[test]
fn size_policy_evicts_empty_entries_to_keep_its_limits() {
    let mut partition = CachePartition::new("d".to_string(), 100, 1, EvictionPolicy::Size);
    partition.add_entry("a".to_string(), CacheEntry::new("a".to_string(), vec![], KeyedTable::new(), 200));
    partition.add_entry("b".to_string(), CacheEntry::new("b".to_string(), vec![], KeyedTable::new(), 200));
    assert_eq!(partition.current_entries, 1);
    assert!(partition.entries.get("a").is_none());
    assert!(partition.entries.get("b").is_some());
}

#[test]
fn lfu_evicts_the_first_entry_when_every_count_is_at_its_largest() {
    let mut partition = CachePartition::new("d".to_string(), 100, 2, EvictionPolicy::LFU);
    for key in ["a", "b"] {
        let mut entry = CacheEntry::new(key.to_string(), vec![0u8; 3], KeyedTable::new(), 200);
        entry.access_count = u64::MAX;
        partition.add_entry(key.to_string(), entry);
    }
    partition.add_entry("c".to_string(), CacheEntry::new("c".to_string(), vec![0u8; 3], KeyedTable::new(), 200));
    assert_eq!(partition.current_entries, 2);
    assert!(partition.entries.get("a").is_none());
    assert!(partition.entries.get("b").is_some());
    assert!(partition.entries.get("c").is_some());
}
