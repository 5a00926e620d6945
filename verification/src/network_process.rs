//! The network process: requests kept by identifier, a response cache in
//! front of the HTTP client, and counters of what was served. Creating the
//! disk cache's directory is left to the caller; everything here is state.

use vstd::prelude::*;
use crate::error::{Error, Result};
use crate::table::{KeyedTable, Entries, table_get, table_insert, table_keys, copy_text_table};
use crate::text::{decimal, decimal_string, str_to_string, concat_str, push_str, byte_range};
use crate::time::{Duration, Timestamp};
use vstd::string::StringSliceAdditionalSpecFns;

verus! {

/// Bytes in one mebibyte.
pub const MEBIBYTE: usize = 1_048_576;

/// TLS version enumeration
#[derive(Debug, Clone, Copy, PartialEq, Eq, Structural)]
pub enum TlsVersion {
    Tls10,
    Tls11,
    Tls12,
    Tls13,
}

/// TLS configuration
#[derive(Debug, Clone)]
pub struct TlsConfig {
    /// Minimum TLS version
    pub min_version: TlsVersion,
    /// Maximum TLS version
    pub max_version: TlsVersion,
    /// Enable certificate pinning
    pub certificate_pinning: bool,
    /// Enable OCSP stapling
    pub ocsp_stapling: bool,
    /// Custom CA certificates
    pub custom_ca_certs: Vec<Vec<u8>>,
}

impl Default for TlsConfig {
    fn default() -> (r: Self)
        ensures
            r.min_version == TlsVersion::Tls12,
            r.max_version == TlsVersion::Tls13,
            r.certificate_pinning,
            r.ocsp_stapling,
            r.custom_ca_certs@.len() == 0,
    {
        TlsConfig {
            min_version: TlsVersion::Tls12,
            max_version: TlsVersion::Tls13,
            certificate_pinning: true,
            ocsp_stapling: true,
            custom_ca_certs: Vec::new(),
        }
    }
}

/// Network process configuration
#[derive(Debug, Clone)]
pub struct NetworkConfig {
    /// Maximum number of concurrent connections
    pub max_connections: usize,
    /// Connection timeout in seconds
    pub connection_timeout: u64,
    /// Request timeout in seconds
    pub request_timeout: u64,
    /// Enable HTTP/2 support
    pub http2_enabled: bool,
    /// Enable HTTP/3 support
    pub http3_enabled: bool,
    /// Enable connection pooling
    pub connection_pooling: bool,
    /// Maximum cache size in MB
    pub max_cache_size_mb: usize,
    /// Enable disk caching
    pub disk_cache_enabled: bool,
    /// Enable memory caching
    pub memory_cache_enabled: bool,
    /// TLS configuration
    pub tls_config: TlsConfig,
}

impl Default for NetworkConfig {
    fn default() -> (r: Self)
        ensures
            r.max_connections == 100,
            r.connection_timeout == 30,
            r.request_timeout == 60,
            r.http2_enabled,
            !r.http3_enabled,
            r.connection_pooling,
            r.max_cache_size_mb == 100,
            r.disk_cache_enabled,
            r.memory_cache_enabled,
            r.tls_config.min_version == TlsVersion::Tls12,
            r.tls_config.max_version == TlsVersion::Tls13,
            r.tls_config.certificate_pinning,
            r.tls_config.ocsp_stapling,
            r.tls_config.custom_ca_certs@.len() == 0,
    {
        NetworkConfig {
            max_connections: 100,
            connection_timeout: 30,
            request_timeout: 60,
            http2_enabled: true,
            http3_enabled: false,
            connection_pooling: true,
            max_cache_size_mb: 100,
            disk_cache_enabled: true,
            memory_cache_enabled: true,
            tls_config: TlsConfig::default(),
        }
    }
}

/// The certificates' bytes.
pub open spec fn certs_view(v: Seq<Vec<u8>>) -> Seq<Seq<u8>> {
    v.map_values(|c: Vec<u8>| c@)
}

/// Two TLS configurations hold the same settings and certificates.
pub open spec fn same_tls_config(a: TlsConfig, b: TlsConfig) -> bool {
    &&& a.min_version == b.min_version
    &&& a.max_version == b.max_version
    &&& a.certificate_pinning == b.certificate_pinning
    &&& a.ocsp_stapling == b.ocsp_stapling
    &&& certs_view(a.custom_ca_certs@) == certs_view(b.custom_ca_certs@)
}

/// Two network configurations hold the same settings.
pub open spec fn same_config(a: NetworkConfig, b: NetworkConfig) -> bool {
    &&& a.max_connections == b.max_connections
    &&& a.connection_timeout == b.connection_timeout
    &&& a.request_timeout == b.request_timeout
    &&& a.http2_enabled == b.http2_enabled
    &&& a.http3_enabled == b.http3_enabled
    &&& a.connection_pooling == b.connection_pooling
    &&& a.max_cache_size_mb == b.max_cache_size_mb
    &&& a.disk_cache_enabled == b.disk_cache_enabled
    &&& a.memory_cache_enabled == b.memory_cache_enabled
    &&& same_tls_config(a.tls_config, b.tls_config)
}

/// A cache size in megabytes, counted in bytes, fits in a `usize`.
pub open spec fn size_fits(mb: usize) -> bool {
    mb * 1_048_576 <= usize::MAX
}

/// A copy of a TLS configuration.
pub fn copy_tls_config(c: &TlsConfig) -> (r: TlsConfig)
    ensures
        same_tls_config(r, *c),
{
    let mut certs: Vec<Vec<u8>> = Vec::new();
    let mut i: usize = 0;
    while i < c.custom_ca_certs.len()
        invariant
            i <= c.custom_ca_certs@.len(),
            certs_view(certs@) == certs_view(c.custom_ca_certs@).take(i as int),
        decreases c.custom_ca_certs@.len() - i,
    {
        let cert = &c.custom_ca_certs[i];
        let ghost before = certs@;
        certs.push(byte_range(cert.as_slice(), 0, cert.len()));
        proof {
            assert(cert@.subrange(0, cert@.len() as int) =~= cert@);
            assert(certs_view(certs@) =~= certs_view(before).push(cert@));
            assert(certs_view(c.custom_ca_certs@).take(i + 1) =~= certs_view(c.custom_ca_certs@).take(
                i as int,
            ).push(cert@));
        }
        i = i + 1;
    }
    assert(certs_view(c.custom_ca_certs@).take(c.custom_ca_certs@.len() as int) =~= certs_view(
        c.custom_ca_certs@,
    ));
    TlsConfig {
        min_version: c.min_version,
        max_version: c.max_version,
        certificate_pinning: c.certificate_pinning,
        ocsp_stapling: c.ocsp_stapling,
        custom_ca_certs: certs,
    }
}

/// A copy of a network configuration.
pub fn copy_config(c: &NetworkConfig) -> (r: NetworkConfig)
    ensures
        same_config(r, *c),
{
    NetworkConfig {
        max_connections: c.max_connections,
        connection_timeout: c.connection_timeout,
        request_timeout: c.request_timeout,
        http2_enabled: c.http2_enabled,
        http3_enabled: c.http3_enabled,
        connection_pooling: c.connection_pooling,
        max_cache_size_mb: c.max_cache_size_mb,
        disk_cache_enabled: c.disk_cache_enabled,
        memory_cache_enabled: c.memory_cache_enabled,
        tls_config: copy_tls_config(&c.tls_config),
    }
}

/// Network request state
#[derive(Debug, Clone)]
pub enum RequestState {
    /// Request is being prepared
    Preparing,
    /// Request is being sent
    Sending,
    /// Waiting for response
    Waiting,
    /// Receiving response
    Receiving,
    /// Request completed successfully
    Completed,
    /// Request failed
    Failed(String),
    /// Request was cancelled
    Cancelled,
}

/// Network response information
#[derive(Debug)]
pub struct NetworkResponse {
    /// HTTP status code
    pub status_code: u16,
    /// Response headers
    pub headers: KeyedTable<String>,
    /// Response body
    pub body: Vec<u8>,
    /// Content type
    pub content_type: String,
    /// Content length
    pub content_length: usize,
    /// Response time
    pub response_time: Duration,
}

/// Two responses hold the same status, headers, body, type, length and time.
pub open spec fn same_response(a: NetworkResponse, b: NetworkResponse) -> bool {
    &&& a.status_code == b.status_code
    &&& a.headers@ == b.headers@
    &&& a.body@ == b.body@
    &&& a.content_type@ == b.content_type@
    &&& a.content_length == b.content_length
    &&& a.response_time == b.response_time
}

impl Clone for NetworkResponse {
    /// A copy with the same status, headers, body, type, length and time.
    fn clone(&self) -> (r: Self)
        ensures
            same_response(r, *self),
    {
        let body = byte_range(self.body.as_slice(), 0, self.body.len());
        assert(self.body@.subrange(0, self.body@.len() as int) =~= self.body@);
        NetworkResponse {
            status_code: self.status_code,
            headers: copy_text_table(&self.headers),
            body,
            content_type: self.content_type.clone(),
            content_length: self.content_length,
            response_time: self.response_time,
        }
    }
}

/// The page that the HTTP client answers every request with.
pub open spec fn placeholder_page() -> Seq<u8> {
    "<html><body><h1>Hello from Matte Browser!</h1></body></html>".spec_bytes()
}

/// The response the HTTP client gives: status 200 with the placeholder
/// page as `text/html`, no headers, a stated length of zero, and one
/// hundred milliseconds taken.
pub open spec fn placeholder_response(r: NetworkResponse) -> bool {
    &&& r.status_code == 200
    &&& r.headers@.len() == 0
    &&& r.body@ == placeholder_page()
    &&& r.content_type@ == "text/html"@
    &&& r.content_length == 0
    &&& r.response_time@ == 100_000_000
}

/// Network request information
#[derive(Debug, Clone)]
pub struct NetworkRequest {
    /// Request ID
    pub request_id: String,
    /// Associated tab ID
    pub tab_id: u64,
    /// Request URL
    pub url: String,
    /// HTTP method
    pub method: String,
    /// Request headers
    pub headers: KeyedTable<String>,
    /// Request body
    pub body: Option<Vec<u8>>,
    /// Request state
    pub state: RequestState,
    /// Request start time
    pub start_time: Timestamp,
    /// Response information
    pub response: Option<NetworkResponse>,
}

/// Network process statistics
#[derive(Debug, Clone, Copy)]
pub struct NetworkStats {
    /// Total requests made
    pub total_requests: usize,
    /// Successful requests
    pub successful_requests: usize,
    /// Failed requests
    pub failed_requests: usize,
    /// Cache hits
    pub cache_hits: usize,
    /// Cache misses
    pub cache_misses: usize,
    /// Total bytes transferred
    pub total_bytes_transferred: usize,
    /// Response time of the latest response fetched
    pub avg_response_time: Duration,
    /// Active connections
    pub active_connections: usize,
}

impl Default for NetworkStats {
    fn default() -> (r: Self)
        ensures
            r.total_requests == 0,
            r.successful_requests == 0,
            r.failed_requests == 0,
            r.cache_hits == 0,
            r.cache_misses == 0,
            r.total_bytes_transferred == 0,
            r.avg_response_time@ == 0,
            r.active_connections == 0,
    {
        NetworkStats {
            total_requests: 0,
            successful_requests: 0,
            failed_requests: 0,
            cache_hits: 0,
            cache_misses: 0,
            total_bytes_transferred: 0,
            avg_response_time: Duration::zero(),
            active_connections: 0,
        }
    }
}

/// Connection information
#[derive(Debug, Clone)]
pub struct ConnectionInfo {
    pub host: String,
    pub port: u16,
    pub protocol: String,
    pub is_secure: bool,
}

/// The pool of connections, with the configuration it was made with.
pub struct ConnectionPool {
    config: NetworkConfig,
}

impl ConnectionPool {
    /// The configuration the pool holds.
    pub closed spec fn settings(&self) -> NetworkConfig {
        self.config
    }

    /// A pool made with `config`.
    pub fn new(config: &NetworkConfig) -> (r: Result<Self>)
        ensures
            r matches Ok(p) && same_config(p.settings(), *config),
    {
        Ok(ConnectionPool { config: copy_config(config) })
    }

    /// Takes the new configuration.
    pub fn update_config(&mut self, config: &NetworkConfig) -> (r: Result<()>)
        ensures
            r is Ok,
            same_config(final(self).settings(), *config),
    {
        self.config = copy_config(config);
        Ok(())
    }

    /// Shuts the pool down; it holds nothing to release.
    pub fn shutdown(&mut self) -> (r: Result<()>)
        ensures
            r is Ok,
            final(self).settings() == old(self).settings(),
    {
        Ok(())
    }
}

/// HTTP client manager
pub struct HttpClientManager {
    connections: KeyedTable<ConnectionInfo>,
    connection_pool: ConnectionPool,
    config: NetworkConfig,
}

impl HttpClientManager {
    /// The configuration the client holds.
    pub closed spec fn settings(&self) -> NetworkConfig {
        self.config
    }

    /// The active connections, by name.
    pub closed spec fn connections(&self) -> Entries<ConnectionInfo> {
        self.connections@
    }

    /// The configuration the client's pool holds.
    pub closed spec fn pool_settings(&self) -> NetworkConfig {
        self.connection_pool.settings()
    }

    /// Create a new HTTP client manager
    pub fn new(config: &NetworkConfig) -> (r: Result<Self>)
        ensures
            r matches Ok(c) && same_config(c.settings(), *config) && same_config(c.pool_settings(), *config)
                && c.connections().len() == 0,
    {
        Ok(
            HttpClientManager {
                connections: KeyedTable::new(),
                connection_pool: ConnectionPool::new(config)?,
                config: copy_config(config),
            },
        )
    }

    /// Execute an HTTP request: every request is answered with the
    /// placeholder page.
    pub fn execute_request(&self, _request: &NetworkRequest) -> (r: Result<NetworkResponse>)
        ensures
            r matches Ok(resp) && placeholder_response(resp),
    {
        let page = "<html><body><h1>Hello from Matte Browser!</h1></body></html>";
        let bytes = page.as_bytes();
        let body = byte_range(bytes, 0, bytes.len());
        assert(bytes@.subrange(0, bytes@.len() as int) =~= bytes@);
        assert(body@ == placeholder_page());
        let response_time = Duration::from_millis(100);
        assert(response_time@ == 100_000_000);
        Ok(
            NetworkResponse {
                status_code: 200,
                headers: KeyedTable::new(),
                body,
                content_type: str_to_string("text/html"),
                content_length: 0,
                response_time,
            },
        )
    }

    /// Update HTTP client configuration
    pub fn update_config(&mut self, config: &NetworkConfig) -> (r: Result<()>)
        ensures
            r is Ok,
            same_config(final(self).settings(), *config),
            same_config(final(self).pool_settings(), *config),
            final(self).connections() == old(self).connections(),
    {
        self.config = copy_config(config);
        self.connection_pool.update_config(config)?;
        Ok(())
    }

    /// Shutdown the HTTP client manager: every connection is dropped.
    pub fn shutdown(&mut self) -> (r: Result<()>)
        ensures
            r is Ok,
            final(self).connections().len() == 0,
            final(self).settings() == old(self).settings(),
            final(self).pool_settings() == old(self).pool_settings(),
    {
        self.connections = KeyedTable::new();
        self.connection_pool.shutdown()?;
        Ok(())
    }
}

/// A TLS session
#[derive(Debug, Clone)]
pub struct TlsSession {
    pub session_id: String,
    pub host: String,
    pub protocol_version: TlsVersion,
}

/// Certificates by name.
pub struct CertificateStore {
    certificates: KeyedTable<Vec<u8>>,
}

impl CertificateStore {
    /// The certificates held, by name.
    pub closed spec fn certificates(&self) -> Entries<Vec<u8>> {
        self.certificates@
    }

    /// An empty store.
    pub fn new() -> (r: Result<Self>)
        ensures
            r matches Ok(s) && s.certificates().len() == 0,
    {
        Ok(CertificateStore { certificates: KeyedTable::new() })
    }
}

/// TLS manager
pub struct TlsManager {
    config: TlsConfig,
    certificate_store: CertificateStore,
    sessions: KeyedTable<TlsSession>,
}

impl TlsManager {
    /// The TLS configuration held.
    pub closed spec fn settings(&self) -> TlsConfig {
        self.config
    }

    /// The active sessions, by name.
    pub closed spec fn sessions(&self) -> Entries<TlsSession> {
        self.sessions@
    }

    /// Create a new TLS manager
    pub fn new(config: &TlsConfig) -> (r: Result<Self>)
        ensures
            r matches Ok(m) && same_tls_config(m.settings(), *config) && m.sessions().len() == 0,
    {
        Ok(
            TlsManager {
                config: copy_tls_config(config),
                certificate_store: CertificateStore::new()?,
                sessions: KeyedTable::new(),
            },
        )
    }

    /// Update TLS configuration
    pub fn update_config(&mut self, config: &TlsConfig) -> (r: Result<()>)
        ensures
            r is Ok,
            same_tls_config(final(self).settings(), *config),
            final(self).sessions() == old(self).sessions(),
    {
        self.config = copy_tls_config(config);
        Ok(())
    }

    /// Shutdown the TLS manager: every session is dropped.
    pub fn shutdown(&mut self) -> (r: Result<()>)
        ensures
            r is Ok,
            final(self).sessions().len() == 0,
            final(self).settings() == old(self).settings(),
    {
        self.sessions = KeyedTable::new();
        Ok(())
    }
}

/// Responses kept in memory, by URL.
pub struct MemoryCache {
    cache: KeyedTable<NetworkResponse>,
    max_size: usize,
}

impl MemoryCache {
    /// The responses held, by URL.
    pub closed spec fn entries(&self) -> Entries<NetworkResponse> {
        self.cache@
    }

    /// The size limit in bytes.
    pub closed spec fn limit(&self) -> usize {
        self.max_size
    }

    /// An empty cache of `max_size_mb` mebibytes.
    pub fn new(max_size_mb: usize) -> (r: Result<Self>)
        requires
            size_fits(max_size_mb),
        ensures
            r matches Ok(c) && c.entries().len() == 0 && c.limit() == max_size_mb * 1_048_576,
    {
        Ok(MemoryCache { cache: KeyedTable::new(), max_size: max_size_mb * MEBIBYTE })
    }

    /// A copy of the response stored under `url`.
    pub fn get(&self, url: &str) -> (r: Result<Option<NetworkResponse>>)
        ensures
            r matches Ok(o) && match table_get(self.entries(), url@) {
                Some(c) => o matches Some(x) && same_response(x, c),
                None => o is None,
            },
    {
        match self.cache.get(url) {
            Some(c) => Ok(Some(c.clone())),
            None => Ok(None),
        }
    }

    /// Stores a copy of `response` under `url`, replacing what was there.
    pub fn put(&mut self, url: &str, response: &NetworkResponse) -> (r: Result<()>)
        ensures
            r is Ok,
            final(self).limit() == old(self).limit(),
            match table_get(final(self).entries(), url@) {
                Some(c) => same_response(c, *response) && final(self).entries() == table_insert(
                    old(self).entries(),
                    url@,
                    c,
                ),
                None => false,
            },
    {
        let copy = response.clone();
        let ghost stored = copy;
        self.cache.insert(str_to_string(url), copy);
        proof {
            crate::table::lemma_get_after_insert(old(self).cache@, url@, stored);
        }
        Ok(())
    }

    /// Sets the size limit to `max_size_mb` mebibytes.
    pub fn update_size(&mut self, max_size_mb: usize) -> (r: Result<()>)
        requires
            size_fits(max_size_mb),
        ensures
            r is Ok,
            final(self).limit() == max_size_mb * 1_048_576,
            final(self).entries() == old(self).entries(),
    {
        self.max_size = max_size_mb * MEBIBYTE;
        Ok(())
    }

    /// Drops every response.
    pub fn shutdown(&mut self) -> (r: Result<()>)
        ensures
            r is Ok,
            final(self).entries().len() == 0,
            final(self).limit() == old(self).limit(),
    {
        self.cache = KeyedTable::new();
        Ok(())
    }
}

/// Responses on disk. Nothing is stored there yet: a lookup finds nothing
/// and a store keeps nothing. Its directory is made by whoever opens it.
pub struct DiskCache {
    max_size: usize,
}

impl DiskCache {
    /// The size limit in bytes.
    pub closed spec fn limit(&self) -> usize {
        self.max_size
    }

    /// A disk cache of `max_size_mb` mebibytes.
    pub fn new(max_size_mb: usize) -> (r: Result<Self>)
        requires
            size_fits(max_size_mb),
        ensures
            r matches Ok(d) && d.limit() == max_size_mb * 1_048_576,
    {
        Ok(DiskCache { max_size: max_size_mb * MEBIBYTE })
    }

    /// Looks up `url`: nothing is found.
    pub fn get(&self, _url: &str) -> (r: Result<Option<NetworkResponse>>)
        ensures
            r matches Ok(None),
    {
        Ok(None)
    }

    /// Stores a response: nothing is kept.
    pub fn put(&self, _url: &str, _response: &NetworkResponse) -> (r: Result<()>)
        ensures
            r is Ok,
    {
        Ok(())
    }

    /// Shuts the disk cache down.
    pub fn shutdown(&mut self) -> (r: Result<()>)
        ensures
            r is Ok,
            final(self).limit() == old(self).limit(),
    {
        Ok(())
    }
}

/// Cache manager: a memory cache, and a disk cache where enabled.
pub struct CacheManager {
    memory_cache: MemoryCache,
    disk_cache: Option<DiskCache>,
    config: NetworkConfig,
}

impl CacheManager {
    /// The responses held in memory, by URL.
    pub closed spec fn memory(&self) -> Entries<NetworkResponse> {
        self.memory_cache.entries()
    }

    /// The memory cache's size limit in bytes.
    pub closed spec fn memory_limit(&self) -> usize {
        self.memory_cache.limit()
    }

    /// The disk cache's size limit in bytes, where there is a disk cache.
    pub closed spec fn disk_limit(&self) -> Option<usize> {
        match self.disk_cache {
            Some(d) => Some(d.limit()),
            None => None,
        }
    }

    /// The configuration held.
    pub closed spec fn settings(&self) -> NetworkConfig {
        self.config
    }

    /// Create a new cache manager: an empty memory cache of the configured
    /// size, and a disk cache of the same size where disk caching is enabled.
    pub fn new(config: &NetworkConfig) -> (r: Result<Self>)
        requires
            size_fits(config.max_cache_size_mb),
        ensures
            r matches Ok(c) && c.memory().len() == 0 && c.memory_limit() == config.max_cache_size_mb * 1_048_576
                && c.disk_limit() == (if config.disk_cache_enabled {
                Some((config.max_cache_size_mb * 1_048_576) as usize)
            } else {
                None
            }) && same_config(c.settings(), *config),
    {
        let memory_cache = MemoryCache::new(config.max_cache_size_mb)?;
        let disk_cache = if config.disk_cache_enabled {
            Some(DiskCache::new(config.max_cache_size_mb)?)
        } else {
            None
        };
        Ok(CacheManager { memory_cache, disk_cache, config: copy_config(config) })
    }

    /// Get a cached response: memory first, then disk, where a response
    /// found is moved into memory.
    pub fn get(&mut self, url: &str) -> (r: Result<Option<NetworkResponse>>)
        ensures
            r matches Ok(o) && match table_get(old(self).memory(), url@) {
                Some(c) => o matches Some(x) && same_response(x, c),
                None => o is None,
            },
            *final(self) == *old(self),
    {
        if let Some(response) = self.memory_cache.get(url)? {
            return Ok(Some(response));
        }
        if let Some(disk_cache) = &self.disk_cache {
            if let Some(response) = disk_cache.get(url)? {
                self.memory_cache.put(url, &response)?;
                return Ok(Some(response));
            }
        }
        Ok(None)
    }

    /// Store a response in cache: in memory, and on disk where enabled.
    pub fn put(&mut self, url: &str, response: &NetworkResponse) -> (r: Result<()>)
        ensures
            r is Ok,
            match table_get(final(self).memory(), url@) {
                Some(c) => same_response(c, *response) && final(self).memory() == table_insert(
                    old(self).memory(),
                    url@,
                    c,
                ),
                None => false,
            },
            final(self).memory_limit() == old(self).memory_limit(),
            final(self).disk_limit() == old(self).disk_limit(),
            final(self).settings() == old(self).settings(),
    {
        self.memory_cache.put(url, response)?;
        if let Some(disk_cache) = &self.disk_cache {
            disk_cache.put(url, response)?;
        }
        Ok(())
    }

    /// Update cache configuration: the memory cache takes the new size; a
    /// disk cache is opened where disk caching becomes enabled and dropped
    /// where it is disabled; one already open keeps its size.
    pub fn update_config(&mut self, config: &NetworkConfig) -> (r: Result<()>)
        requires
            size_fits(config.max_cache_size_mb),
        ensures
            r is Ok,
            same_config(final(self).settings(), *config),
            final(self).memory() == old(self).memory(),
            final(self).memory_limit() == config.max_cache_size_mb * 1_048_576,
            final(self).disk_limit() == (if !config.disk_cache_enabled {
                None
            } else if old(self).disk_limit() is Some {
                old(self).disk_limit()
            } else {
                Some((config.max_cache_size_mb * 1_048_576) as usize)
            }),
    {
        self.config = copy_config(config);
        self.memory_cache.update_size(config.max_cache_size_mb)?;
        if config.disk_cache_enabled && self.disk_cache.is_none() {
            self.disk_cache = Some(DiskCache::new(config.max_cache_size_mb)?);
        } else if !config.disk_cache_enabled {
            self.disk_cache = None;
        }
        Ok(())
    }

    /// Shutdown the cache manager: the memory cache is emptied.
    pub fn shutdown(&mut self) -> (r: Result<()>)
        ensures
            r is Ok,
            final(self).memory().len() == 0,
            final(self).memory_limit() == old(self).memory_limit(),
            final(self).disk_limit() == old(self).disk_limit(),
            final(self).settings() == old(self).settings(),
    {
        self.memory_cache.shutdown()?;
        if let Some(disk_cache) = &mut self.disk_cache {
            disk_cache.shutdown()?;
        }
        Ok(())
    }
}

/// The name of the request numbered `n`.
pub open spec fn request_name(n: nat) -> Seq<char> {
    "req_"@ + decimal(n)
}

/// All counters at zero.
pub open spec fn stats_zero(s: NetworkStats) -> bool {
    &&& s.total_requests == 0
    &&& s.successful_requests == 0
    &&& s.failed_requests == 0
    &&& s.cache_hits == 0
    &&& s.cache_misses == 0
    &&& s.total_bytes_transferred == 0
    &&& s.avg_response_time@ == 0
    &&& s.active_connections == 0
}

/// `new` is `old` with a request, made now, stored under `id`: being
/// prepared, for `url` with `method`, without headers, body or response.
pub open spec fn request_created(
    old: Entries<NetworkRequest>,
    new: Entries<NetworkRequest>,
    id: Seq<char>,
    tab_id: u64,
    url: Seq<char>,
    method: Seq<char>,
) -> bool {
    match table_get(new, id) {
        Some(q) => new == table_insert(old, id, q) && q.request_id@ == id && q.tab_id == tab_id && q.url@ == url
            && q.method@ == method && q.headers@.len() == 0 && q.body is None && q.state is Preparing
            && q.response is None,
        None => false,
    }
}

/// `new` is `old` with the request under `id` completed with `resp`, all
/// else about it kept.
pub open spec fn request_completed(
    old: Entries<NetworkRequest>,
    new: Entries<NetworkRequest>,
    id: Seq<char>,
    resp: NetworkResponse,
) -> bool {
    match (table_get(old, id), table_get(new, id)) {
        (Some(q), Some(q2)) => {
            &&& new == table_insert(old, id, q2)
            &&& q2.request_id == q.request_id
            &&& q2.tab_id == q.tab_id
            &&& q2.url == q.url
            &&& q2.method == q.method
            &&& q2.headers == q.headers
            &&& q2.body == q.body
            &&& q2.start_time == q.start_time
            &&& q2.state is Completed
            &&& q2.response matches Some(x) && same_response(x, resp)
        },
        _ => false,
    }
}

/// `new` is `old` with the request under `id` cancelled, all else about it
/// kept; nothing changes where there is no such request.
pub open spec fn request_cancelled(old: Entries<NetworkRequest>, new: Entries<NetworkRequest>, id: Seq<char>) -> bool {
    match table_get(old, id) {
        None => new == old,
        Some(q) => match table_get(new, id) {
            Some(q2) => {
                &&& new == table_insert(old, id, q2)
                &&& q2.request_id == q.request_id
                &&& q2.tab_id == q.tab_id
                &&& q2.url == q.url
                &&& q2.method == q.method
                &&& q2.headers == q.headers
                &&& q2.body == q.body
                &&& q2.start_time == q.start_time
                &&& q2.response == q.response
                &&& q2.state is Cancelled
            },
            None => false,
        },
    }
}

/// Network process manager
pub struct NetworkProcessManager {
    requests: KeyedTable<NetworkRequest>,
    http_client: HttpClientManager,
    tls_manager: TlsManager,
    cache_manager: CacheManager,
    config: NetworkConfig,
    stats: NetworkStats,
    next_request_id: u64,
}

impl NetworkProcessManager {
    /// The requests, by name.
    pub closed spec fn requests(&self) -> Entries<NetworkRequest> {
        self.requests@
    }

    /// The counters.
    pub closed spec fn statistics(&self) -> NetworkStats {
        self.stats
    }

    /// The configuration held.
    pub closed spec fn settings(&self) -> NetworkConfig {
        self.config
    }

    /// The number the next request gets.
    pub closed spec fn next_number(&self) -> u64 {
        self.next_request_id
    }

    /// The cache manager.
    pub closed spec fn caches(&self) -> CacheManager {
        self.cache_manager
    }

    /// The HTTP client manager.
    pub closed spec fn client(&self) -> HttpClientManager {
        self.http_client
    }

    /// The TLS manager.
    pub closed spec fn tls(&self) -> TlsManager {
        self.tls_manager
    }

    /// Create a new network process manager: no requests, counters at
    /// zero, the first request numbered 1, and each part made with `config`.
    pub fn new(config: NetworkConfig) -> (r: Result<Self>)
        requires
            size_fits(config.max_cache_size_mb),
        ensures
            r matches Ok(m) && {
                &&& m.requests().len() == 0
                &&& stats_zero(m.statistics())
                &&& m.next_number() == 1
                &&& same_config(m.settings(), config)
                &&& same_config(m.client().settings(), config)
                &&& m.client().connections().len() == 0
                &&& same_tls_config(m.tls().settings(), config.tls_config)
                &&& m.tls().sessions().len() == 0
                &&& m.caches().memory().len() == 0
                &&& m.caches().memory_limit() == config.max_cache_size_mb * 1_048_576
                &&& m.caches().disk_limit() == (if config.disk_cache_enabled {
                    Some((config.max_cache_size_mb * 1_048_576) as usize)
                } else {
                    None
                })
            },
    {
        let http_client = HttpClientManager::new(&config)?;
        let tls_manager = TlsManager::new(&config.tls_config)?;
        let cache_manager = CacheManager::new(&config)?;
        Ok(
            NetworkProcessManager {
                requests: KeyedTable::new(),
                http_client,
                tls_manager,
                cache_manager,
                config,
                stats: NetworkStats::default(),
                next_request_id: 1,
            },
        )
    }

    /// Create a new network request, named `req_` and the next number.
    pub fn create_request(&mut self, tab_id: u64, url: String, method: String) -> (r: Result<String>)
        requires
            old(self).next_number() < u64::MAX,
        ensures
            r matches Ok(id) && id@ == request_name(old(self).next_number() as nat) && request_created(
                old(self).requests(),
                final(self).requests(),
                id@,
                tab_id,
                url@,
                method@,
            ),
            final(self).next_number() == old(self).next_number() + 1,
            final(self).statistics() == old(self).statistics(),
            final(self).settings() == old(self).settings(),
            final(self).caches() == old(self).caches(),
            final(self).client() == old(self).client(),
            final(self).tls() == old(self).tls(),
    {
        let digits = decimal_string(self.next_request_id as u128);
        let request_id = concat_str("req_", digits.as_str());
        self.next_request_id = self.next_request_id + 1;
        let request = NetworkRequest {
            request_id: str_to_string(request_id.as_str()),
            tab_id,
            url,
            method,
            headers: KeyedTable::new(),
            body: None,
            state: RequestState::Preparing,
            start_time: Timestamp::now(),
            response: None,
        };
        let ghost stored = request;
        self.requests.insert(str_to_string(request_id.as_str()), request);
        proof {
            crate::table::lemma_get_after_insert(old(self).requests@, request_id@, stored);
        }
        Ok(request_id)
    }

    /// Execute a network request: a response cached for its URL is served
    /// from the cache; otherwise the HTTP client's response is cached and
    /// served. Either way the request is completed with it and counted.
    pub fn execute_request(&mut self, request_id: &str) -> (r: Result<NetworkResponse>)
        requires
            old(self).statistics().cache_hits < usize::MAX,
            old(self).statistics().cache_misses < usize::MAX,
            old(self).statistics().successful_requests < usize::MAX,
        ensures
            match table_get(old(self).requests(), request_id@) {
                None => r matches Err(Error::Config(m)) && m@ == "Request "@ + request_id@ + " not found"@
                    && *final(self) == *old(self),
                Some(q) => r matches Ok(resp) && request_completed(
                    old(self).requests(),
                    final(self).requests(),
                    request_id@,
                    resp,
                ) && match table_get(old(self).caches().memory(), q.url@) {
                    Some(c) => {
                        &&& same_response(resp, c)
                        &&& final(self).caches() == old(self).caches()
                        &&& final(self).statistics() == NetworkStats {
                            cache_hits: (old(self).statistics().cache_hits + 1) as usize,
                            ..old(self).statistics()
                        }
                    },
                    None => {
                        &&& placeholder_response(resp)
                        &&& final(self).caches().memory_limit() == old(self).caches().memory_limit()
                        &&& final(self).caches().disk_limit() == old(self).caches().disk_limit()
                        &&& match table_get(final(self).caches().memory(), q.url@) {
                            Some(c) => same_response(c, resp) && final(self).caches().memory() == table_insert(
                                old(self).caches().memory(),
                                q.url@,
                                c,
                            ),
                            None => false,
                        }
                        &&& final(self).statistics() == NetworkStats {
                            cache_misses: (old(self).statistics().cache_misses + 1) as usize,
                            successful_requests: (old(self).statistics().successful_requests + 1) as usize,
                            avg_response_time: resp.response_time,
                            ..old(self).statistics()
                        }
                    },
                },
            },
            final(self).next_number() == old(self).next_number(),
            final(self).settings() == old(self).settings(),
            final(self).client() == old(self).client(),
            final(self).tls() == old(self).tls(),
    {
        let i = self.requests.position(request_id);
        if i >= self.requests.len() {
            let mut m = concat_str("Request ", request_id);
            push_str(&mut m, " not found");
            return Err(Error::config(m));
        }
        let ghost t = self.requests@;
        proof {
            crate::table::lemma_index_of_key_bounds(t, request_id@);
        }
        let (key, mut request) = self.requests.remove_at(i);
        request.state = RequestState::Sending;
        if let Some(cached) = self.cache_manager.get(request.url.as_str())? {
            self.stats.cache_hits = self.stats.cache_hits + 1;
            request.state = RequestState::Completed;
            request.response = Some(cached.clone());
            let ghost done = request;
            self.requests.insert_at(i, key, request);
            proof {
                crate::table::lemma_reinsert(t, i as int, done);
            }
            return Ok(cached);
        }
        self.stats.cache_misses = self.stats.cache_misses + 1;
        let response = self.http_client.execute_request(&request)?;
        self.cache_manager.put(request.url.as_str(), &response)?;
        request.state = RequestState::Completed;
        request.response = Some(response.clone());
        let ghost done = request;
        self.requests.insert_at(i, key, request);
        proof {
            crate::table::lemma_reinsert(t, i as int, done);
        }
        self.stats.successful_requests = self.stats.successful_requests + 1;
        self.stats.total_bytes_transferred = self.stats.total_bytes_transferred + response.content_length;
        self.stats.avg_response_time = response.response_time;
        Ok(response)
    }

    /// Get a network request by ID
    pub fn get_request(&self, request_id: &str) -> (r: Option<&NetworkRequest>)
        ensures
            match table_get(self.requests(), request_id@) {
                Some(q) => r matches Some(x) && *x == q,
                None => r is None,
            },
    {
        self.requests.get(request_id)
    }

    /// Cancel a network request; nothing happens where there is none.
    pub fn cancel_request(&mut self, request_id: &str) -> (r: Result<()>)
        ensures
            r is Ok,
            request_cancelled(old(self).requests(), final(self).requests(), request_id@),
            table_keys(final(self).requests()) == table_keys(old(self).requests()),
            final(self).statistics() == old(self).statistics(),
            final(self).next_number() == old(self).next_number(),
            final(self).settings() == old(self).settings(),
            final(self).caches() == old(self).caches(),
            final(self).client() == old(self).client(),
            final(self).tls() == old(self).tls(),
    {
        let i = self.requests.position(request_id);
        if i < self.requests.len() {
            let ghost t = self.requests@;
            proof {
                crate::table::lemma_index_of_key_bounds(t, request_id@);
            }
            let (key, mut request) = self.requests.remove_at(i);
            request.state = RequestState::Cancelled;
            let ghost done = request;
            self.requests.insert_at(i, key, request);
            proof {
                crate::table::lemma_reinsert(t, i as int, done);
                assert(table_keys(t.update(i as int, (request_id@, done))) =~= table_keys(t));
            }
        }
        Ok(())
    }

    /// Get network statistics
    pub fn get_stats(&self) -> (r: NetworkStats)
        ensures
            r == self.statistics(),
    {
        self.stats
    }

    /// Update network configuration: the process, its HTTP client, TLS
    /// manager and caches all take the new configuration.
    pub fn update_config(&mut self, new_config: NetworkConfig) -> (r: Result<()>)
        requires
            size_fits(new_config.max_cache_size_mb),
        ensures
            r is Ok,
            same_config(final(self).settings(), new_config),
            same_config(final(self).client().settings(), new_config),
            same_tls_config(final(self).tls().settings(), new_config.tls_config),
            same_config(final(self).caches().settings(), new_config),
            final(self).caches().memory() == old(self).caches().memory(),
            final(self).caches().memory_limit() == new_config.max_cache_size_mb * 1_048_576,
            final(self).caches().disk_limit() == (if !new_config.disk_cache_enabled {
                None
            } else if old(self).caches().disk_limit() is Some {
                old(self).caches().disk_limit()
            } else {
                Some((new_config.max_cache_size_mb * 1_048_576) as usize)
            }),
            final(self).client().connections() == old(self).client().connections(),
            final(self).tls().sessions() == old(self).tls().sessions(),
            final(self).requests() == old(self).requests(),
            final(self).statistics() == old(self).statistics(),
            final(self).next_number() == old(self).next_number(),
    {
        self.http_client.update_config(&new_config)?;
        self.tls_manager.update_config(&new_config.tls_config)?;
        self.cache_manager.update_config(&new_config)?;
        self.config = new_config;
        Ok(())
    }

    /// Shutdown the network process: every request is cancelled and then
    /// dropped, connections and sessions are dropped and the memory cache
    /// emptied.
    pub fn shutdown(&mut self) -> (r: Result<()>)
        ensures
            r is Ok,
            final(self).requests().len() == 0,
            final(self).client().connections().len() == 0,
            final(self).tls().sessions().len() == 0,
            final(self).caches().memory().len() == 0,
            final(self).statistics() == old(self).statistics(),
            final(self).next_number() == old(self).next_number(),
            final(self).settings() == old(self).settings(),
    {
        let ids = self.requests.keys();
        let mut j: usize = 0;
        while j < ids.len()
            invariant
                j <= ids@.len(),
                self.stats == old(self).stats,
                self.next_request_id == old(self).next_request_id,
                self.config == old(self).config,
            decreases ids@.len() - j,
        {
            self.cancel_request(ids[j].as_str())?;
            j = j + 1;
        }
        self.requests = KeyedTable::new();
        self.http_client.shutdown()?;
        self.tls_manager.shutdown()?;
        self.cache_manager.shutdown()?;
        Ok(())
    }
}

/// The names of requests numbered differently differ.
pub proof fn lemma_request_names_distinct(a: nat, b: nat)
    requires
        a != b,
    ensures
        request_name(a) != request_name(b),
{
    crate::text::lemma_decimal_roundtrip(a);
    crate::text::lemma_decimal_roundtrip(b);
    reveal_strlit("req_");
    if request_name(a) == request_name(b) {
        assert(request_name(a).subrange(4, request_name(a).len() as int) =~= decimal(a));
        assert(request_name(b).subrange(4, request_name(b).len() as int) =~= decimal(b));
    }
}

/// Initialize the network process
pub fn init(config: NetworkConfig) -> (r: Result<NetworkProcessManager>)
    requires
        size_fits(config.max_cache_size_mb),
    ensures
        r matches Ok(m) && m.requests().len() == 0 && stats_zero(m.statistics()) && m.next_number() == 1
            && same_config(m.settings(), config),
{
    NetworkProcessManager::new(config)
}

} // verus!
