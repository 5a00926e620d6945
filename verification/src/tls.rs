//! TLS: protocol versions, cipher suites, certificates and their validity
//! and name checks, certificate pinning, HSTS, connection configuration,
//! sessions, and the client side of the handshake messages.

use vstd::prelude::*;
use vstd::hash_map::StringHashMap;
use std::collections::HashMap;
use crate::error::{Error, Result};
use crate::digest::{sha256, sha256_digest, fill_random};
use crate::http::append_bytes;
use crate::text::{byte_range, has_prefix, has_suffix, contains_seq, str_chars, chars_equal, chars_start_with,
    chars_end_with, chars_contain, slice_chars, copy_string, str_to_string, concat_str, first_index_of,
    find_char, string_from_chars};
use crate::time::{Duration, Timestamp, later_by};

verus! {

/// TLS version
#[derive(Debug, Clone, Copy, PartialEq, Eq, Structural)]
pub enum TlsVersion {
    Tls1_0,
    Tls1_1,
    Tls1_2,
    Tls1_3,
}

/// TLS cipher suite
#[allow(non_camel_case_types)]
#[derive(Debug, Clone, Copy, PartialEq, Eq, Hash, Structural)]
pub enum TlsCipherSuite {
    TLS_AES_128_GCM_SHA256,
    TLS_AES_256_GCM_SHA384,
    TLS_CHACHA20_POLY1305_SHA256,
    TLS_AES_128_CCM_SHA256,
    TLS_AES_128_CCM_8_SHA256,
    TLS_ECDHE_RSA_WITH_AES_128_GCM_SHA256,
    TLS_ECDHE_RSA_WITH_AES_256_GCM_SHA384,
    TLS_ECDHE_ECDSA_WITH_AES_128_GCM_SHA256,
    TLS_ECDHE_ECDSA_WITH_AES_256_GCM_SHA384,
}

/// TLS signature algorithm
#[allow(non_camel_case_types)]
#[derive(Debug, Clone, Copy, PartialEq, Eq, Structural)]
pub enum TlsSignatureAlgorithm {
    RSA_PKCS1_SHA256,
    RSA_PKCS1_SHA384,
    RSA_PKCS1_SHA512,
    ECDSA_SECP256R1_SHA256,
    ECDSA_SECP384R1_SHA384,
    ECDSA_SECP521R1_SHA512,
    RSA_PSS_RSAE_SHA256,
    RSA_PSS_RSAE_SHA384,
    RSA_PSS_RSAE_SHA512,
    ED25519,
    ED448,
}

/// The name of a version.
pub open spec fn tls_version_name(v: TlsVersion) -> Seq<char> {
    match v {
        TlsVersion::Tls1_0 => "TLSv1.0"@,
        TlsVersion::Tls1_1 => "TLSv1.1"@,
        TlsVersion::Tls1_2 => "TLSv1.2"@,
        TlsVersion::Tls1_3 => "TLSv1.3"@,
    }
}

/// The number of a version on the wire.
pub open spec fn tls_version_number(v: TlsVersion) -> u16 {
    match v {
        TlsVersion::Tls1_0 => 0x0301,
        TlsVersion::Tls1_1 => 0x0302,
        TlsVersion::Tls1_2 => 0x0303,
        TlsVersion::Tls1_3 => 0x0304,
    }
}

/// The version with a given wire number, if any.
pub open spec fn tls_version_from_number(n: u16) -> Option<TlsVersion> {
    if n == 0x0301 {
        Some(TlsVersion::Tls1_0)
    } else if n == 0x0302 {
        Some(TlsVersion::Tls1_1)
    } else if n == 0x0303 {
        Some(TlsVersion::Tls1_2)
    } else if n == 0x0304 {
        Some(TlsVersion::Tls1_3)
    } else {
        None
    }
}

/// The wire value of a cipher suite.
pub open spec fn cipher_suite_value(c: TlsCipherSuite) -> u16 {
    match c {
        TlsCipherSuite::TLS_AES_128_GCM_SHA256 => 0x1301,
        TlsCipherSuite::TLS_AES_256_GCM_SHA384 => 0x1302,
        TlsCipherSuite::TLS_CHACHA20_POLY1305_SHA256 => 0x1303,
        TlsCipherSuite::TLS_AES_128_CCM_SHA256 => 0x1304,
        TlsCipherSuite::TLS_AES_128_CCM_8_SHA256 => 0x1305,
        TlsCipherSuite::TLS_ECDHE_RSA_WITH_AES_128_GCM_SHA256 => 0xC02F,
        TlsCipherSuite::TLS_ECDHE_RSA_WITH_AES_256_GCM_SHA384 => 0xC030,
        TlsCipherSuite::TLS_ECDHE_ECDSA_WITH_AES_128_GCM_SHA256 => 0xC02B,
        TlsCipherSuite::TLS_ECDHE_ECDSA_WITH_AES_256_GCM_SHA384 => 0xC02C,
    }
}

/// The cipher suite with a given wire value, if any.
pub open spec fn cipher_suite_from_value(v: u16) -> Option<TlsCipherSuite> {
    if v == 0x1301 {
        Some(TlsCipherSuite::TLS_AES_128_GCM_SHA256)
    } else if v == 0x1302 {
        Some(TlsCipherSuite::TLS_AES_256_GCM_SHA384)
    } else if v == 0x1303 {
        Some(TlsCipherSuite::TLS_CHACHA20_POLY1305_SHA256)
    } else if v == 0x1304 {
        Some(TlsCipherSuite::TLS_AES_128_CCM_SHA256)
    } else if v == 0x1305 {
        Some(TlsCipherSuite::TLS_AES_128_CCM_8_SHA256)
    } else if v == 0xC02F {
        Some(TlsCipherSuite::TLS_ECDHE_RSA_WITH_AES_128_GCM_SHA256)
    } else if v == 0xC030 {
        Some(TlsCipherSuite::TLS_ECDHE_RSA_WITH_AES_256_GCM_SHA384)
    } else if v == 0xC02B {
        Some(TlsCipherSuite::TLS_ECDHE_ECDSA_WITH_AES_128_GCM_SHA256)
    } else if v == 0xC02C {
        Some(TlsCipherSuite::TLS_ECDHE_ECDSA_WITH_AES_256_GCM_SHA384)
    } else {
        None
    }
}

/// The five TLS 1.3 suites.
pub open spec fn is_tls13_suite(c: TlsCipherSuite) -> bool {
    match c {
        TlsCipherSuite::TLS_AES_128_GCM_SHA256 | TlsCipherSuite::TLS_AES_256_GCM_SHA384
        | TlsCipherSuite::TLS_CHACHA20_POLY1305_SHA256 | TlsCipherSuite::TLS_AES_128_CCM_SHA256
        | TlsCipherSuite::TLS_AES_128_CCM_8_SHA256 => true,
        _ => false,
    }
}

/// A suite is usable in TLS 1.3 when it is a TLS 1.3 suite or an ECDHE
/// suite; in TLS 1.2 when it is an ECDHE suite; in no earlier version.
pub open spec fn suite_supported_in(c: TlsCipherSuite, v: TlsVersion) -> bool {
    if is_tls13_suite(c) {
        v == TlsVersion::Tls1_3
    } else {
        v == TlsVersion::Tls1_2 || v == TlsVersion::Tls1_3
    }
}

impl TlsVersion {
    /// Convert to string
    pub fn as_str(&self) -> (r: &'static str)
        ensures
            r@ == tls_version_name(*self),
    {
        match self {
            TlsVersion::Tls1_0 => "TLSv1.0",
            TlsVersion::Tls1_1 => "TLSv1.1",
            TlsVersion::Tls1_2 => "TLSv1.2",
            TlsVersion::Tls1_3 => "TLSv1.3",
        }
    }

    /// Get version number
    pub fn version_number(&self) -> (r: u16)
        ensures
            r == tls_version_number(*self),
    {
        match self {
            TlsVersion::Tls1_0 => 0x0301,
            TlsVersion::Tls1_1 => 0x0302,
            TlsVersion::Tls1_2 => 0x0303,
            TlsVersion::Tls1_3 => 0x0304,
        }
    }

    /// Parse from version number
    pub fn from_version_number(version: u16) -> (r: Option<Self>)
        ensures
            r == tls_version_from_number(version),
    {
        if version == 0x0301 {
            Some(TlsVersion::Tls1_0)
        } else if version == 0x0302 {
            Some(TlsVersion::Tls1_1)
        } else if version == 0x0303 {
            Some(TlsVersion::Tls1_2)
        } else if version == 0x0304 {
            Some(TlsVersion::Tls1_3)
        } else {
            None
        }
    }
}

impl TlsCipherSuite {
    /// Get cipher suite value
    pub fn value(&self) -> (r: u16)
        ensures
            r == cipher_suite_value(*self),
    {
        match self {
            TlsCipherSuite::TLS_AES_128_GCM_SHA256 => 0x1301,
            TlsCipherSuite::TLS_AES_256_GCM_SHA384 => 0x1302,
            TlsCipherSuite::TLS_CHACHA20_POLY1305_SHA256 => 0x1303,
            TlsCipherSuite::TLS_AES_128_CCM_SHA256 => 0x1304,
            TlsCipherSuite::TLS_AES_128_CCM_8_SHA256 => 0x1305,
            TlsCipherSuite::TLS_ECDHE_RSA_WITH_AES_128_GCM_SHA256 => 0xC02F,
            TlsCipherSuite::TLS_ECDHE_RSA_WITH_AES_256_GCM_SHA384 => 0xC030,
            TlsCipherSuite::TLS_ECDHE_ECDSA_WITH_AES_128_GCM_SHA256 => 0xC02B,
            TlsCipherSuite::TLS_ECDHE_ECDSA_WITH_AES_256_GCM_SHA384 => 0xC02C,
        }
    }

    /// Parse from value
    pub fn from_value(value: u16) -> (r: Option<Self>)
        ensures
            r == cipher_suite_from_value(value),
    {
        if value == 0x1301 {
            Some(TlsCipherSuite::TLS_AES_128_GCM_SHA256)
        } else if value == 0x1302 {
            Some(TlsCipherSuite::TLS_AES_256_GCM_SHA384)
        } else if value == 0x1303 {
            Some(TlsCipherSuite::TLS_CHACHA20_POLY1305_SHA256)
        } else if value == 0x1304 {
            Some(TlsCipherSuite::TLS_AES_128_CCM_SHA256)
        } else if value == 0x1305 {
            Some(TlsCipherSuite::TLS_AES_128_CCM_8_SHA256)
        } else if value == 0xC02F {
            Some(TlsCipherSuite::TLS_ECDHE_RSA_WITH_AES_128_GCM_SHA256)
        } else if value == 0xC030 {
            Some(TlsCipherSuite::TLS_ECDHE_RSA_WITH_AES_256_GCM_SHA384)
        } else if value == 0xC02B {
            Some(TlsCipherSuite::TLS_ECDHE_ECDSA_WITH_AES_128_GCM_SHA256)
        } else if value == 0xC02C {
            Some(TlsCipherSuite::TLS_ECDHE_ECDSA_WITH_AES_256_GCM_SHA384)
        } else {
            None
        }
    }

    /// Check if cipher suite is supported in TLS version
    pub fn is_supported_in_version(&self, version: TlsVersion) -> (r: bool)
        ensures
            r == suite_supported_in(*self, version),
    {
        match self {
            TlsCipherSuite::TLS_AES_128_GCM_SHA256 | TlsCipherSuite::TLS_AES_256_GCM_SHA384
            | TlsCipherSuite::TLS_CHACHA20_POLY1305_SHA256 | TlsCipherSuite::TLS_AES_128_CCM_SHA256
            | TlsCipherSuite::TLS_AES_128_CCM_8_SHA256 => version == TlsVersion::Tls1_3,
            _ => version == TlsVersion::Tls1_2 || version == TlsVersion::Tls1_3,
        }
    }
}

/// Wire numbers and suite values identify versions and suites.
pub proof fn lemma_tls_codes_roundtrip(v: TlsVersion, c: TlsCipherSuite)
    ensures
        tls_version_from_number(tls_version_number(v)) == Some(v),
        cipher_suite_from_value(cipher_suite_value(c)) == Some(c),
{
}

/// TLS certificate
#[derive(Debug, Clone)]
pub struct TlsCertificate {
    /// Certificate data (DER format)
    pub data: Vec<u8>,
    /// Certificate chain
    pub chain: Vec<Vec<u8>>,
    /// Private key (PEM format)
    pub private_key: Option<Vec<u8>>,
    /// Certificate subject
    pub subject: String,
    /// Certificate issuer
    pub issuer: String,
    /// Valid from
    pub valid_from: Timestamp,
    /// Valid until
    pub valid_until: Timestamp,
    /// Serial number
    pub serial_number: Vec<u8>,
    /// Subject alternative names
    pub san: Vec<String>,
    /// Key usage
    pub key_usage: Vec<String>,
    /// Extended key usage
    pub extended_key_usage: Vec<String>,
}

/// TLS certificate validation result
#[derive(Debug, Clone)]
pub struct CertificateValidationResult {
    /// Whether certificate is valid
    pub is_valid: bool,
    /// Validation errors
    pub errors: Vec<String>,
    /// Certificate chain validation
    pub chain_valid: bool,
    /// OCSP validation result
    pub ocsp_valid: Option<bool>,
    /// Certificate pinning result
    pub pinning_valid: Option<bool>,
    /// HSTS validation result
    pub hsts_valid: Option<bool>,
}

/// OCSP response
#[derive(Debug, Clone)]
pub struct OcspResponse {
    /// OCSP response data
    pub data: Vec<u8>,
    /// Response status
    pub status: OcspResponseStatus,
    /// Certificate status
    pub cert_status: OcspCertStatus,
    /// This update time
    pub this_update: Timestamp,
    /// Next update time
    pub next_update: Option<Timestamp>,
    /// Revocation time (if revoked)
    pub revocation_time: Option<Timestamp>,
    /// Revocation reason (if revoked)
    pub revocation_reason: Option<String>,
}

/// OCSP response status
#[derive(Debug, Clone, Copy, PartialEq, Eq, Structural)]
pub enum OcspResponseStatus {
    Successful,
    MalformedRequest,
    InternalError,
    TryLater,
    SigRequired,
    Unauthorized,
}

/// OCSP certificate status
#[derive(Debug, Clone, Copy, PartialEq, Eq, Structural)]
pub enum OcspCertStatus {
    Good,
    Revoked,
    Unknown,
}

/// Certificate pinning configuration
#[derive(Debug, Clone)]
pub struct CertificatePinning {
    /// Pinned certificates (SHA-256 hashes)
    pub pinned_certs: Vec<Vec<u8>>,
    /// Pinned public keys (SHA-256 hashes)
    pub pinned_keys: Vec<Vec<u8>>,
    /// Maximum age for pins
    pub max_age: Duration,
    /// Whether to include subdomains
    pub include_subdomains: bool,
    /// Report-only mode
    pub report_only: bool,
}

/// HSTS configuration
pub struct HstsConfig {
    /// HSTS enabled domains
    pub domains: StringHashMap<HstsEntry>,
    /// Preload list
    pub preload_list: Vec<String>,
    /// Default max age
    pub default_max_age: Duration,
    /// Include subdomains by default
    pub include_subdomains: bool,
}

/// HSTS entry
#[derive(Debug, Clone)]
pub struct HstsEntry {
    /// Domain name
    pub domain: String,
    /// Maximum age
    pub max_age: Duration,
    /// Include subdomains
    pub include_subdomains: bool,
    /// Preload flag
    pub preload: bool,
    /// Created time
    pub created: Timestamp,
}

/// The certificate is within its validity period at `now`.
pub open spec fn cert_valid_at(c: TlsCertificate, now: Timestamp) -> bool {
    c.valid_from@ <= now@ && now@ <= c.valid_until@
}

/// The certificate's validity period has ended at `now`.
pub open spec fn cert_expired_at(c: TlsCertificate, now: Timestamp) -> bool {
    now@ > c.valid_until@
}

/// The certificate's validity period has not begun at `now`.
pub open spec fn cert_not_yet_valid_at(c: TlsCertificate, now: Timestamp) -> bool {
    now@ < c.valid_from@
}

/// `domain` is one label (non-empty, without dots) followed by a dot and `base`.
pub open spec fn one_label_above(base: Seq<char>, domain: Seq<char>) -> bool {
    let k = domain.len() - base.len() - 1;
    &&& domain.len() > base.len() + 1
    &&& has_suffix(domain, base)
    &&& domain[k] == '.'
    &&& !contains_seq(domain.subrange(0, k), seq!['.'])
}

/// A subject alternative name covers `domain`: the same name, or a
/// wildcard `*.base` and `domain` is exactly one label above `base`.
pub open spec fn san_covers(san: Seq<char>, domain: Seq<char>) -> bool {
    san == domain || (has_prefix(san, "*."@) && one_label_above(san.subrange(2, san.len() as int), domain))
}

/// The certificate names `domain`: one of its alternative names covers it,
/// or its subject text contains it.
pub open spec fn cert_names_domain(c: TlsCertificate, domain: Seq<char>) -> bool {
    (exists|i: int| 0 <= i < c.san@.len() && san_covers(#[trigger] c.san@[i]@, domain))
        || contains_seq(c.subject@, domain)
}

/// Some byte string of the list equals `x`.
pub open spec fn contains_bytes(v: Seq<Vec<u8>>, x: Seq<u8>) -> bool {
    exists|i: int| 0 <= i < v.len() && #[trigger] v[i]@ == x
}

/// Whether some byte string of the list equals `x`.
pub fn list_contains_bytes(v: &Vec<Vec<u8>>, x: &Vec<u8>) -> (r: bool)
    ensures
        r == contains_bytes(v@, x@),
{
    let mut i: usize = 0;
    while i < v.len()
        invariant
            i <= v@.len(),
            forall|j: int| 0 <= j < i ==> v@[j]@ != x@,
        decreases v@.len() - i,
    {
        if bytes_equal(v[i].as_slice(), x.as_slice()) {
            return true;
        }
        i = i + 1;
    }
    false
}

/// Whether two byte strings are equal.
pub fn bytes_equal(a: &[u8], b: &[u8]) -> (r: bool)
    ensures
        r == (a@ == b@),
{
    if a.len() != b.len() {
        return false;
    }
    let mut i: usize = 0;
    while i < a.len()
        invariant
            i <= a.len(),
            a.len() == b.len(),
            forall|j: int| 0 <= j < i ==> a@[j] == b@[j],
        decreases a.len() - i,
    {
        if a[i] != b[i] {
            return false;
        }
        i = i + 1;
    }
    assert(a@ =~= b@);
    true
}

/// Whether `domain` is one label above `base`.
fn label_above(base: &[char], domain: &[char]) -> (r: bool)
    ensures
        r == one_label_above(base@, domain@),
{
    if domain.len() <= base.len() || domain.len() - base.len() <= 1 {
        return false;
    }
    if !chars_end_with(domain, base) {
        return false;
    }
    let k = domain.len() - base.len() - 1;
    if domain[k] != '.' {
        return false;
    }
    let label = slice_chars(domain, 0, k);
    let dot = str_chars(".");
    proof {
        reveal_strlit(".");
        assert(dot@ =~= seq!['.']);
    }
    !chars_contain(label.as_slice(), dot.as_slice())
}

/// Whether an alternative name covers `domain`.
fn san_covers_exec(san: &[char], domain: &[char]) -> (r: bool)
    ensures
        r == san_covers(san@, domain@),
{
    if chars_equal(san, domain) {
        return true;
    }
    let star = str_chars("*.");
    if chars_start_with(san, star.as_slice()) {
        proof {
            reveal_strlit("*.");
        }
        let base = slice_chars(san, 2, san.len());
        label_above(base.as_slice(), domain)
    } else {
        false
    }
}

impl TlsCertificate {
    /// Create new certificate, valid from and until the moment of creation.
    pub fn new(data: Vec<u8>) -> (r: Self)
        ensures
            r.data == data,
            r.chain@.len() == 0,
            r.private_key is None,
            r.subject@.len() == 0,
            r.issuer@.len() == 0,
            r.serial_number@.len() == 0,
            r.san@.len() == 0,
            r.key_usage@.len() == 0,
            r.extended_key_usage@.len() == 0,
    {
        let now = Timestamp::now();
        Self {
            data,
            chain: Vec::new(),
            private_key: None,
            subject: String::new(),
            issuer: String::new(),
            valid_from: now,
            valid_until: now,
            serial_number: Vec::new(),
            san: Vec::new(),
            key_usage: Vec::new(),
            extended_key_usage: Vec::new(),
        }
    }

    /// Whether the certificate is valid at `now`.
    pub fn is_valid_at(&self, now: Timestamp) -> (r: bool)
        ensures
            r == cert_valid_at(*self, now),
    {
        !now.is_before(&self.valid_from) && !now.is_after(&self.valid_until)
    }

    /// Whether the certificate has expired at `now`.
    pub fn is_expired_at(&self, now: Timestamp) -> (r: bool)
        ensures
            r == cert_expired_at(*self, now),
    {
        now.is_after(&self.valid_until)
    }

    /// Whether the certificate is not yet valid at `now`.
    pub fn is_not_yet_valid_at(&self, now: Timestamp) -> (r: bool)
        ensures
            r == cert_not_yet_valid_at(*self, now),
    {
        now.is_before(&self.valid_from)
    }

    /// Check if certificate is valid, at the moment of the call.
    pub fn is_valid(&self) -> (r: bool)
        ensures
            exists|now: Timestamp| r == cert_valid_at(*self, now),
    {
        let now = Timestamp::now();
        self.is_valid_at(now)
    }

    /// Check if certificate is expired, at the moment of the call.
    pub fn is_expired(&self) -> (r: bool)
        ensures
            exists|now: Timestamp| r == cert_expired_at(*self, now),
    {
        let now = Timestamp::now();
        self.is_expired_at(now)
    }

    /// Check if certificate is not yet valid, at the moment of the call.
    pub fn is_not_yet_valid(&self) -> (r: bool)
        ensures
            exists|now: Timestamp| r == cert_not_yet_valid_at(*self, now),
    {
        let now = Timestamp::now();
        self.is_not_yet_valid_at(now)
    }

    /// Get certificate fingerprint (SHA-256)
    pub fn fingerprint(&self) -> (r: Result<Vec<u8>>)
        ensures
            r matches Ok(f) && f@ == sha256_digest(self.data@) && f@.len() == 32,
    {
        Ok(sha256(self.data.as_slice()))
    }

    /// Check if certificate matches domain
    pub fn matches_domain(&self, domain: &str) -> (r: bool)
        ensures
            r == cert_names_domain(*self, domain@),
    {
        let d = str_chars(domain);
        let mut i: usize = 0;
        while i < self.san.len()
            invariant
                i <= self.san@.len(),
                d@ == domain@,
                forall|j: int| 0 <= j < i ==> !san_covers(#[trigger] self.san@[j]@, domain@),
            decreases self.san@.len() - i,
        {
            let s = str_chars(self.san[i].as_str());
            if san_covers_exec(s.as_slice(), d.as_slice()) {
                return true;
            }
            i = i + 1;
        }
        let subj = str_chars(self.subject.as_str());
        chars_contain(subj.as_slice(), d.as_slice())
    }
}

impl CertificatePinning {
    /// Create new certificate pinning configuration
    pub fn new() -> (r: Self)
        ensures
            r.pinned_certs@.len() == 0,
            r.pinned_keys@.len() == 0,
            r.max_age@ == 5184000nat * 1_000_000_000,
            !r.include_subdomains,
            !r.report_only,
    {
        Self {
            pinned_certs: Vec::new(),
            pinned_keys: Vec::new(),
            max_age: Duration::from_secs(5184000),
            include_subdomains: false,
            report_only: false,
        }
    }

    /// Add pinned certificate
    pub fn add_pinned_cert(&mut self, cert_hash: Vec<u8>)
        ensures
            final(self).pinned_certs@ == old(self).pinned_certs@.push(cert_hash),
            final(self).pinned_keys == old(self).pinned_keys,
            final(self).max_age == old(self).max_age,
            final(self).include_subdomains == old(self).include_subdomains,
            final(self).report_only == old(self).report_only,
    {
        self.pinned_certs.push(cert_hash);
    }

    /// Add pinned public key
    pub fn add_pinned_key(&mut self, key_hash: Vec<u8>)
        ensures
            final(self).pinned_keys@ == old(self).pinned_keys@.push(key_hash),
            final(self).pinned_certs == old(self).pinned_certs,
            final(self).max_age == old(self).max_age,
            final(self).include_subdomains == old(self).include_subdomains,
            final(self).report_only == old(self).report_only,
    {
        self.pinned_keys.push(key_hash);
    }

    /// Check if certificate is pinned: its SHA-256 fingerprint is among the pinned hashes.
    pub fn is_cert_pinned(&self, cert: &TlsCertificate) -> (r: Result<bool>)
        ensures
            r matches Ok(b) && b == contains_bytes(self.pinned_certs@, sha256_digest(cert.data@)),
    {
        let cert_hash = match cert.fingerprint() {
            Ok(h) => h,
            Err(e) => return Err(e),
        };
        Ok(list_contains_bytes(&self.pinned_certs, &cert_hash))
    }

    /// Check if public key is pinned: its SHA-256 hash is among the pinned key hashes.
    pub fn is_key_pinned(&self, key_data: &[u8]) -> (r: Result<bool>)
        ensures
            r matches Ok(b) && b == contains_bytes(self.pinned_keys@, sha256_digest(key_data@)),
    {
        let key_hash = sha256(key_data);
        Ok(list_contains_bytes(&self.pinned_keys, &key_hash))
    }
}

/// The entry is still in force at `now`: no later than its creation plus its maximum age.
pub open spec fn hsts_entry_live(e: HstsEntry, now: Timestamp) -> bool {
    now@ <= e.created@ + e.max_age@
}

/// Some string of the list equals `x`.
pub open spec fn contains_string(v: Seq<String>, x: Seq<char>) -> bool {
    exists|i: int| 0 <= i < v.len() && #[trigger] v[i]@ == x
}

/// HSTS applies to `domain` itself at `now`: a recorded entry for it is
/// still in force, or (without an entry) it is on the preload list.
pub open spec fn hsts_enabled_at(c: HstsConfig, domain: Seq<char>, now: Timestamp) -> bool {
    if c.domains@.contains_key(domain) {
        hsts_entry_live(c.domains@[domain], now)
    } else {
        contains_string(c.preload_list@, domain)
    }
}

/// The name one label up from `domain`: what follows its first dot.
pub open spec fn parent_domain(domain: Seq<char>) -> Option<Seq<char>> {
    match first_index_of(domain, '.') {
        Some(i) => Some(domain.subrange(i + 1, domain.len() as int)),
        None => None,
    }
}

/// HSTS applies to `domain` or is inherited from the name one label up,
/// whose entry includes subdomains and is still in force.
pub open spec fn subdomain_hsts_enabled_at(c: HstsConfig, domain: Seq<char>, now: Timestamp) -> bool {
    hsts_enabled_at(c, domain, now) || match parent_domain(domain) {
        Some(p) => c.domains@.contains_key(p) && c.domains@[p].include_subdomains && hsts_entry_live(
            c.domains@[p],
            now,
        ),
        None => false,
    }
}

/// Whether some string of the list equals `x`.
pub fn list_contains_string(v: &Vec<String>, x: &str) -> (r: bool)
    ensures
        r == contains_string(v@, x@),
{
    let mut i: usize = 0;
    while i < v.len()
        invariant
            i <= v@.len(),
            forall|j: int| 0 <= j < i ==> v@[j]@ != x@,
        decreases v@.len() - i,
    {
        if str_equal_string(&v[i], x) {
            return true;
        }
        i = i + 1;
    }
    false
}

/// Whether a string holds the same characters as a string slice.
pub fn str_equal_string(a: &String, b: &str) -> (r: bool)
    ensures
        r == (a@ == b@),
{
    crate::text::str_equal(a.as_str(), b)
}

/// Whether an entry is in force at `now`.
fn entry_live(e: &HstsEntry, now: Timestamp) -> (r: bool)
    ensures
        r == hsts_entry_live(*e, now),
{
    let expiry = e.created.plus(e.max_age);
    if now.is_after(&expiry) {
        false
    } else {
        true
    }
}

impl HstsConfig {
    /// Create new HSTS configuration
    pub fn new() -> (r: Self)
        ensures
            r.domains@ == Map::<Seq<char>, HstsEntry>::empty(),
            r.preload_list@.len() == 0,
            r.default_max_age@ == 31536000nat * 1_000_000_000,
            !r.include_subdomains,
    {
        Self {
            domains: StringHashMap::new(),
            preload_list: Vec::new(),
            default_max_age: Duration::from_secs(31536000),
            include_subdomains: false,
        }
    }

    /// Add HSTS domain, created now.
    pub fn add_domain(&mut self, domain: String, max_age: Duration, include_subdomains: bool, preload: bool)
        ensures
            final(self).domains@.dom() == old(self).domains@.dom().insert(domain@),
            forall|k: Seq<char>| k != domain@ && old(self).domains@.contains_key(k) ==> final(self).domains@[k] == old(self).domains@[k],
            final(self).domains@[domain@].domain@ == domain@,
            final(self).domains@[domain@].max_age == max_age,
            final(self).domains@[domain@].include_subdomains == include_subdomains,
            final(self).domains@[domain@].preload == preload,
            final(self).preload_list == old(self).preload_list,
            final(self).default_max_age == old(self).default_max_age,
            final(self).include_subdomains == old(self).include_subdomains,
    {
        let entry = HstsEntry {
            domain: copy_string(&domain),
            max_age,
            include_subdomains,
            preload,
            created: Timestamp::now(),
        };
        self.domains.insert(domain, entry);
    }

    /// Whether HSTS applies to `domain` at `now`.
    pub fn is_hsts_enabled_at(&self, domain: &str, now: Timestamp) -> (r: bool)
        ensures
            r == hsts_enabled_at(*self, domain@, now),
    {
        match self.domains.get(domain) {
            Some(entry) => entry_live(entry, now),
            None => list_contains_string(&self.preload_list, domain),
        }
    }

    /// Whether HSTS applies to `domain` or is inherited from its parent at `now`.
    pub fn is_subdomain_hsts_enabled_at(&self, domain: &str, now: Timestamp) -> (r: bool)
        ensures
            r == subdomain_hsts_enabled_at(*self, domain@, now),
    {
        if self.is_hsts_enabled_at(domain, now) {
            return true;
        }
        let d = str_chars(domain);
        match find_char(d.as_slice(), '.') {
            Some(i) => {
                let n = d.len();
                assert(i < n);
                let parent = string_from_chars(slice_chars(d.as_slice(), i + 1, n).as_slice());
                match self.domains.get(parent.as_str()) {
                    Some(entry) => entry.include_subdomains && entry_live(entry, now),
                    None => false,
                }
            },
            None => false,
        }
    }

    /// Check if domain is HSTS enabled, at the moment of the call.
    pub fn is_hsts_enabled(&self, domain: &str) -> (r: bool)
        ensures
            exists|now: Timestamp| r == hsts_enabled_at(*self, domain@, now),
    {
        let now = Timestamp::now();
        self.is_hsts_enabled_at(domain, now)
    }

    /// Check if subdomain is HSTS enabled, at the moment of the call.
    pub fn is_subdomain_hsts_enabled(&self, domain: &str) -> (r: bool)
        ensures
            exists|now: Timestamp| r == subdomain_hsts_enabled_at(*self, domain@, now),
    {
        let now = Timestamp::now();
        self.is_subdomain_hsts_enabled_at(domain, now)
    }
}

/// TLS configuration
pub struct TlsConfig {
    /// Minimum TLS version
    pub min_version: TlsVersion,
    /// Maximum TLS version
    pub max_version: TlsVersion,
    /// Preferred cipher suites
    pub cipher_suites: Vec<TlsCipherSuite>,
    /// Signature algorithms
    pub signature_algorithms: Vec<TlsSignatureAlgorithm>,
    /// Certificate validation
    pub verify_certificates: bool,
    /// Certificate pinning
    pub certificate_pinning: Option<CertificatePinning>,
    /// HSTS configuration
    pub hsts_config: Option<HstsConfig>,
    /// OCSP stapling
    pub ocsp_stapling: bool,
    /// Session resumption
    pub session_resumption: bool,
    /// Session cache size
    pub session_cache_size: usize,
    /// Session timeout
    pub session_timeout: Duration,
}

/// TLS session
pub struct TlsSession {
    /// Session ID
    pub id: Vec<u8>,
    /// Master secret
    pub master_secret: Vec<u8>,
    /// Cipher suite
    pub cipher_suite: TlsCipherSuite,
    /// Session creation time
    pub created: Timestamp,
    /// Session expiry time
    pub expires: Timestamp,
    /// Peer certificate
    pub peer_certificate: Option<TlsCertificate>,
    /// Session data
    pub data: StringHashMap<Vec<u8>>,
}

/// TLS connection state
#[derive(Debug, Clone, Copy, PartialEq, Eq, Structural)]
pub enum TlsConnectionState {
    Initial,
    Handshake,
    Connected,
    Closing,
    Closed,
}

/// TLS connection
pub struct TlsConnection {
    /// Connection state
    pub state: TlsConnectionState,
    /// TLS version
    pub version: Option<TlsVersion>,
    /// Cipher suite
    pub cipher_suite: Option<TlsCipherSuite>,
    /// Session
    pub session: Option<TlsSession>,
    /// Peer certificate
    pub peer_certificate: Option<TlsCertificate>,
    /// OCSP response
    pub ocsp_response: Option<OcspResponse>,
    /// Certificate validation result
    pub cert_validation: Option<CertificateValidationResult>,
    /// Application data buffer
    pub app_data_buffer: Vec<u8>,
    /// Handshake data buffer
    pub handshake_buffer: Vec<u8>,
}

impl TlsConfig {
    /// Create default TLS 1.3 configuration
    pub fn tls13_default() -> (r: Self)
        ensures
            r.min_version == TlsVersion::Tls1_3,
            r.max_version == TlsVersion::Tls1_3,
            r.cipher_suites@ == seq![
                TlsCipherSuite::TLS_AES_128_GCM_SHA256,
                TlsCipherSuite::TLS_AES_256_GCM_SHA384,
                TlsCipherSuite::TLS_CHACHA20_POLY1305_SHA256,
            ],
            r.signature_algorithms@ == seq![
                TlsSignatureAlgorithm::ECDSA_SECP256R1_SHA256,
                TlsSignatureAlgorithm::ECDSA_SECP384R1_SHA384,
                TlsSignatureAlgorithm::RSA_PSS_RSAE_SHA256,
                TlsSignatureAlgorithm::RSA_PSS_RSAE_SHA384,
                TlsSignatureAlgorithm::ED25519,
            ],
            r.verify_certificates,
            r.certificate_pinning is None,
            r.hsts_config is None,
            r.ocsp_stapling,
            r.session_resumption,
            r.session_cache_size == 1024,
            r.session_timeout@ == 3600nat * 1_000_000_000,
    {
        Self {
            min_version: TlsVersion::Tls1_3,
            max_version: TlsVersion::Tls1_3,
            cipher_suites: vec![
                TlsCipherSuite::TLS_AES_128_GCM_SHA256,
                TlsCipherSuite::TLS_AES_256_GCM_SHA384,
                TlsCipherSuite::TLS_CHACHA20_POLY1305_SHA256,
            ],
            signature_algorithms: vec![
                TlsSignatureAlgorithm::ECDSA_SECP256R1_SHA256,
                TlsSignatureAlgorithm::ECDSA_SECP384R1_SHA384,
                TlsSignatureAlgorithm::RSA_PSS_RSAE_SHA256,
                TlsSignatureAlgorithm::RSA_PSS_RSAE_SHA384,
                TlsSignatureAlgorithm::ED25519,
            ],
            verify_certificates: true,
            certificate_pinning: None,
            hsts_config: None,
            ocsp_stapling: true,
            session_resumption: true,
            session_cache_size: 1024,
            session_timeout: Duration::from_secs(3600),
        }
    }

    /// Create default TLS 1.2 configuration
    pub fn tls12_default() -> (r: Self)
        ensures
            r.min_version == TlsVersion::Tls1_2,
            r.max_version == TlsVersion::Tls1_2,
            r.cipher_suites@ == seq![
                TlsCipherSuite::TLS_ECDHE_RSA_WITH_AES_128_GCM_SHA256,
                TlsCipherSuite::TLS_ECDHE_RSA_WITH_AES_256_GCM_SHA384,
                TlsCipherSuite::TLS_ECDHE_ECDSA_WITH_AES_128_GCM_SHA256,
                TlsCipherSuite::TLS_ECDHE_ECDSA_WITH_AES_256_GCM_SHA384,
            ],
            r.signature_algorithms@ == seq![
                TlsSignatureAlgorithm::ECDSA_SECP256R1_SHA256,
                TlsSignatureAlgorithm::ECDSA_SECP384R1_SHA384,
                TlsSignatureAlgorithm::RSA_PKCS1_SHA256,
                TlsSignatureAlgorithm::RSA_PKCS1_SHA384,
            ],
            r.verify_certificates,
            r.certificate_pinning is None,
            r.hsts_config is None,
            r.ocsp_stapling,
            r.session_resumption,
            r.session_cache_size == 1024,
            r.session_timeout@ == 3600nat * 1_000_000_000,
    {
        Self {
            min_version: TlsVersion::Tls1_2,
            max_version: TlsVersion::Tls1_2,
            cipher_suites: vec![
                TlsCipherSuite::TLS_ECDHE_RSA_WITH_AES_128_GCM_SHA256,
                TlsCipherSuite::TLS_ECDHE_RSA_WITH_AES_256_GCM_SHA384,
                TlsCipherSuite::TLS_ECDHE_ECDSA_WITH_AES_128_GCM_SHA256,
                TlsCipherSuite::TLS_ECDHE_ECDSA_WITH_AES_256_GCM_SHA384,
            ],
            signature_algorithms: vec![
                TlsSignatureAlgorithm::ECDSA_SECP256R1_SHA256,
                TlsSignatureAlgorithm::ECDSA_SECP384R1_SHA384,
                TlsSignatureAlgorithm::RSA_PKCS1_SHA256,
                TlsSignatureAlgorithm::RSA_PKCS1_SHA384,
            ],
            verify_certificates: true,
            certificate_pinning: None,
            hsts_config: None,
            ocsp_stapling: true,
            session_resumption: true,
            session_cache_size: 1024,
            session_timeout: Duration::from_secs(3600),
        }
    }
}

/// The session has expired at `now`.
pub open spec fn session_expired_at(s: TlsSession, now: Timestamp) -> bool {
    now@ > s.expires@
}

impl TlsSession {
    /// Create new session, expiring one hour after its creation.
    pub fn new(id: Vec<u8>, master_secret: Vec<u8>, cipher_suite: TlsCipherSuite) -> (r: Self)
        ensures
            r.id == id,
            r.master_secret == master_secret,
            r.cipher_suite == cipher_suite,
            r.peer_certificate is None,
            r.data@ == Map::<Seq<char>, Vec<u8>>::empty(),
            r.expires@ == later_by(r.created@, 3600nat * 1_000_000_000),
    {
        let created = Timestamp::now();
        let expires = created.plus(Duration::from_secs(3600));
        Self {
            id,
            master_secret,
            cipher_suite,
            created,
            expires,
            peer_certificate: None,
            data: StringHashMap::new(),
        }
    }

    /// Whether the session has expired at `now`.
    pub fn is_expired_at(&self, now: Timestamp) -> (r: bool)
        ensures
            r == session_expired_at(*self, now),
    {
        now.is_after(&self.expires)
    }

    /// Check if session is expired, at the moment of the call.
    pub fn is_expired(&self) -> (r: bool)
        ensures
            exists|now: Timestamp| r == session_expired_at(*self, now),
    {
        let now = Timestamp::now();
        self.is_expired_at(now)
    }

    /// Make the session expire `duration` after `now`.
    pub fn extend_at(&mut self, duration: Duration, now: Timestamp)
        ensures
            final(self).expires@ == later_by(now@, duration@),
            final(self).id == old(self).id,
            final(self).master_secret == old(self).master_secret,
            final(self).cipher_suite == old(self).cipher_suite,
            final(self).created == old(self).created,
            final(self).peer_certificate == old(self).peer_certificate,
            final(self).data == old(self).data,
    {
        self.expires = now.plus(duration);
    }

    /// Extend session lifetime: it expires `duration` after the moment of the call.
    pub fn extend(&mut self, duration: Duration)
        ensures
            exists|now: Timestamp| final(self).expires@ == later_by(now@, duration@),
            final(self).id == old(self).id,
            final(self).master_secret == old(self).master_secret,
            final(self).cipher_suite == old(self).cipher_suite,
            final(self).created == old(self).created,
            final(self).peer_certificate == old(self).peer_certificate,
            final(self).data == old(self).data,
    {
        let now = Timestamp::now();
        self.extend_at(duration, now);
    }
}

/// The big-endian 16-bit number in two bytes.
pub open spec fn be16(a: u8, b: u8) -> u16 {
    ((a as u16) << 8u16) | (b as u16)
}

/// What a ClientHello holds after the version and the 32 random bytes: an
/// empty session id; the length of the three offered suites (written as an
/// eight-byte number) and the suites themselves; one compression method
/// (none); and the extensions for supported groups and signature algorithms,
/// with their total length. Extension types, groups and algorithms are
/// written as four-byte numbers and lengths as eight-byte numbers, the widths
/// of the integer types they are computed in.
pub open spec fn client_hello_tail() -> Seq<u8> {
    seq![0u8, 0u8, 0u8, 0u8, 0u8, 0u8, 0u8, 0u8, 6u8, 19u8, 1u8, 19u8, 2u8, 19u8, 3u8, 1u8, 0u8, 0u8, 0u8, 0u8, 0u8, 0u8, 0u8, 0u8, 72u8, 0u8, 0u8, 0u8, 10u8, 0u8, 0u8, 0u8, 0u8, 0u8, 0u8, 0u8, 8u8, 0u8, 0u8, 0u8, 0u8, 0u8, 0u8, 0u8, 6u8, 0u8, 0u8, 0u8, 23u8, 0u8, 0u8, 0u8, 24u8, 0u8, 0u8, 0u8, 25u8, 0u8, 0u8, 0u8, 13u8, 0u8, 0u8, 0u8, 0u8, 0u8, 0u8, 0u8, 12u8, 0u8, 0u8, 0u8, 0u8, 0u8, 0u8, 0u8, 10u8, 0u8, 0u8, 4u8, 3u8, 0u8, 0u8, 5u8, 3u8, 0u8, 0u8, 8u8, 4u8, 0u8, 0u8, 8u8, 5u8, 0u8, 0u8, 8u8, 7u8]
}

/// The ClientHello for a given random value: TLS 1.3's version number, the
/// random bytes, then the fixed remainder.
pub open spec fn client_hello_bytes(random: Seq<u8>) -> Seq<u8> {
    seq![0x03u8, 0x04u8] + random + client_hello_tail()
}

/// Handshake message types: ServerHello, Certificate, ServerKeyExchange,
/// ServerHelloDone.
pub open spec fn is_known_handshake_type(t: u8) -> bool {
    t == 0x02 || t == 0x0B || t == 0x0C || t == 0x0E
}

/// The body length that a handshake message header declares.
pub open spec fn handshake_length(data: Seq<u8>) -> int {
    crate::http2::be24(data[1], data[2], data[3]) as int
}

/// The message's declared body lies within the data.
pub open spec fn handshake_in_bounds(data: Seq<u8>) -> bool {
    data.len() >= 4 && is_known_handshake_type(data[0]) ==> 4 + handshake_length(data) <= data.len()
}

/// Where a ServerHello body holds its cipher suite: after the version, the 32
/// random bytes, the session id length and the session id.
pub open spec fn server_hello_suite_offset(body: Seq<u8>) -> int {
    35 + body[34]
}

/// A ServerHello body long enough to hold its cipher suite.
pub open spec fn server_hello_complete(body: Seq<u8>) -> bool {
    body.len() >= 35 && body.len() >= server_hello_suite_offset(body) + 2
}

/// Walks a certificate list: from `offset` up to `limit`, each certificate
/// is a three-byte length and that many bytes. Gives the last certificate
/// read (`last` where none is), or `None` where a length runs past the data.
pub open spec fn certificate_list_last(data: Seq<u8>, offset: int, limit: int, last: Option<Seq<u8>>) -> Option<Option<Seq<u8>>>
    decreases data.len() - offset,
{
    if offset >= limit {
        Some(last)
    } else if offset < 0 || offset + 3 > data.len() {
        None
    } else {
        let cl = crate::http2::be24(data[offset], data[offset + 1], data[offset + 2]) as int;
        let start = offset + 3;
        if start + cl > data.len() {
            None
        } else {
            certificate_list_last(data, start + cl, limit, Some(data.subrange(start, start + cl)))
        }
    }
}

/// The certificates a Certificate message body carries: the last one, if
/// any; `None` where the body is malformed.
pub open spec fn certificate_message_last(body: Seq<u8>) -> Option<Option<Seq<u8>>> {
    if body.len() < 3 {
        None
    } else {
        certificate_list_last(body, 3, crate::http2::be24(body[0], body[1], body[2]) + 3, None)
    }
}

/// The fixed remainder of a ClientHello.
/// The ClientHello around the given random bytes: the TLS 1.3 version,
/// the random bytes, then the fixed remainder.
pub fn client_hello(random: &[u8]) -> (r: Vec<u8>)
    ensures
        r@ == client_hello_bytes(random@),
{
    let mut hello: Vec<u8> = Vec::new();
    let v = TlsVersion::Tls1_3.version_number();
    hello.push((v >> 8) as u8);
    hello.push(v as u8);
    assert(hello@ =~= seq![0x03u8, 0x04u8]) by {
        assert(((0x0304u16 >> 8u16) as u8) == 0x03u8) by (bit_vector);
        assert((0x0304u16 as u8) == 0x04u8) by (bit_vector);
    }
    append_bytes(&mut hello, random);
    let tail = client_hello_tail_bytes();
    append_bytes(&mut hello, tail.as_slice());
    hello
}

fn client_hello_tail_bytes() -> (r: Vec<u8>)
    ensures
        r@ == client_hello_tail(),
{
    let v: Vec<u8> = vec![0u8, 0u8, 0u8, 0u8, 0u8, 0u8, 0u8, 0u8, 6u8, 19u8, 1u8, 19u8, 2u8, 19u8, 3u8, 1u8, 0u8, 0u8, 0u8, 0u8, 0u8, 0u8, 0u8, 0u8, 72u8, 0u8, 0u8, 0u8, 10u8, 0u8, 0u8, 0u8, 0u8, 0u8, 0u8, 0u8, 8u8, 0u8, 0u8, 0u8, 0u8, 0u8, 0u8, 0u8, 6u8, 0u8, 0u8, 0u8, 23u8, 0u8, 0u8, 0u8, 24u8, 0u8, 0u8, 0u8, 25u8, 0u8, 0u8, 0u8, 13u8, 0u8, 0u8, 0u8, 0u8, 0u8, 0u8, 0u8, 12u8, 0u8, 0u8, 0u8, 0u8, 0u8, 0u8, 0u8, 10u8, 0u8, 0u8, 4u8, 3u8, 0u8, 0u8, 5u8, 3u8, 0u8, 0u8, 8u8, 4u8, 0u8, 0u8, 8u8, 5u8, 0u8, 0u8, 8u8, 7u8];
    assert(v@ =~= client_hello_tail());
    v
}

impl TlsConnection {
    /// Create new TLS connection
    pub fn new() -> (r: Self)
        ensures
            r.state == TlsConnectionState::Initial,
            r.version is None,
            r.cipher_suite is None,
            r.session is None,
            r.peer_certificate is None,
            r.ocsp_response is None,
            r.cert_validation is None,
            r.app_data_buffer@.len() == 0,
            r.handshake_buffer@.len() == 0,
    {
        Self {
            state: TlsConnectionState::Initial,
            version: None,
            cipher_suite: None,
            session: None,
            peer_certificate: None,
            ocsp_response: None,
            cert_validation: None,
            app_data_buffer: Vec::new(),
            handshake_buffer: Vec::new(),
        }
    }

    /// Start client handshake: enters the handshake state and builds a
    /// ClientHello around 32 bytes from the system's random source.
    pub fn start_client_handshake(&mut self) -> (r: Result<Vec<u8>>)
        ensures
            final(self).state == TlsConnectionState::Handshake,
            final(self).version == old(self).version,
            final(self).cipher_suite == old(self).cipher_suite,
            final(self).session == old(self).session,
            final(self).peer_certificate == old(self).peer_certificate,
            final(self).ocsp_response == old(self).ocsp_response,
            final(self).cert_validation == old(self).cert_validation,
            final(self).app_data_buffer == old(self).app_data_buffer,
            final(self).handshake_buffer == old(self).handshake_buffer,
            match r {
                Ok(hello) => exists|random: Seq<u8>| random.len() == 32 && hello@ == client_hello_bytes(random),
                Err(e) => e is Ssl,
            },
    {
        self.state = TlsConnectionState::Handshake;
        let mut random: Vec<u8> = vec![0u8; 32];
        match fill_random(&mut random) {
            Ok(()) => {},
            Err(_) => return Err(Error::ssl(str_to_string("Random number generation failed"))),
        }
        Ok(client_hello(random.as_slice()))
    }

    /// Process server handshake: a message type, a three-byte body length and the body.
    pub fn process_server_handshake(&mut self, data: &[u8]) -> (r: Result<()>)
        requires
            handshake_in_bounds(data@),
        ensures
            data@.len() < 4 ==> (r matches Err(e) && e is Protocol) && *final(self) == *old(self),
            data@.len() >= 4 && !is_known_handshake_type(data@[0]) ==> (r matches Err(e) && e is Protocol)
                && *final(self) == *old(self),
            data@.len() >= 4 && (data@[0] == 0x0C || data@[0] == 0x0E) ==> r is Ok && *final(self) == *old(self),
            data@.len() >= 4 && data@[0] == 0x02 ==> {
                let body = data@.subrange(4, 4 + handshake_length(data@));
                if !server_hello_complete(body) {
                    (r matches Err(e) && e is Protocol) && *final(self) == *old(self)
                } else {
                    r is Ok && *final(self) == (TlsConnection {
                        version: tls_version_from_number(be16(body[0], body[1])),
                        cipher_suite: cipher_suite_from_value(
                            be16(body[server_hello_suite_offset(body)], body[server_hello_suite_offset(body) + 1]),
                        ),
                        ..*old(self)
                    })
                }
            },
            data@.len() >= 4 && data@[0] == 0x0B ==> {
                &&& *final(self) == (TlsConnection { peer_certificate: final(self).peer_certificate, ..*old(self) })
                &&& match certificate_message_last(data@.subrange(4, 4 + handshake_length(data@))) {
                    None => r matches Err(e) && e is Protocol,
                    Some(None) => r is Ok && final(self).peer_certificate == old(self).peer_certificate,
                    Some(Some(d)) => r is Ok && (final(self).peer_certificate matches Some(c) && c.data@ == d),
                }
            },
    {
        if data.len() < 4 {
            return Err(Error::protocol(str_to_string("Invalid handshake message")));
        }
        let msg_type = data[0];
        let length = (((data[1] as u32) << 16) | ((data[2] as u32) << 8) | (data[3] as u32)) as usize;
        if msg_type == 0x02 {
            let body = byte_range(data, 4, 4 + length);
            self.process_server_hello(body.as_slice())
        } else if msg_type == 0x0B {
            let body = byte_range(data, 4, 4 + length);
            self.process_certificate(body.as_slice())
        } else if msg_type == 0x0C {
            let body = byte_range(data, 4, 4 + length);
            self.process_server_key_exchange(body.as_slice())
        } else if msg_type == 0x0E {
            let body = byte_range(data, 4, 4 + length);
            self.process_server_hello_done(body.as_slice())
        } else {
            Err(Error::protocol(str_to_string("Unknown handshake message type")))
        }
    }

    /// Process ServerKeyExchange message; the key exchange is not read yet.
    fn process_server_key_exchange(&mut self, _data: &[u8]) -> (r: Result<()>)
        ensures
            r is Ok,
            *final(self) == *old(self),
    {
        Ok(())
    }

    /// Process ServerHelloDone message, which has no body.
    fn process_server_hello_done(&mut self, _data: &[u8]) -> (r: Result<()>)
        ensures
            r is Ok,
            *final(self) == *old(self),
    {
        Ok(())
    }

    /// Process ServerHello message: the version from its first two bytes and
    /// the cipher suite from the two bytes that follow the session id.
    fn process_server_hello(&mut self, data: &[u8]) -> (r: Result<()>)
        ensures
            !server_hello_complete(data@) ==> (r matches Err(e) && e is Protocol) && *final(self) == *old(self),
            server_hello_complete(data@) ==> r is Ok && *final(self) == (TlsConnection {
                version: tls_version_from_number(be16(data@[0], data@[1])),
                cipher_suite: cipher_suite_from_value(
                    be16(data@[server_hello_suite_offset(data@)], data@[server_hello_suite_offset(data@) + 1]),
                ),
                ..*old(self)
            }),
    {
        if data.len() < 35 {
            return Err(Error::protocol(str_to_string("Invalid ServerHello message")));
        }
        let at = 35 + data[34] as usize;
        if data.len() < at + 2 {
            return Err(Error::protocol(str_to_string("Invalid ServerHello message")));
        }
        let version = ((data[0] as u16) << 8) | (data[1] as u16);
        self.version = TlsVersion::from_version_number(version);
        let suite = ((data[at] as u16) << 8) | (data[at + 1] as u16);
        self.cipher_suite = TlsCipherSuite::from_value(suite);
        Ok(())
    }

    /// Process Certificate message: every certificate of the list becomes the
    /// peer certificate in turn, so the last one remains.
    fn process_certificate(&mut self, data: &[u8]) -> (r: Result<()>)
        ensures
            *final(self) == (TlsConnection { peer_certificate: final(self).peer_certificate, ..*old(self) }),
            match certificate_message_last(data@) {
                None => r matches Err(e) && e is Protocol,
                Some(None) => r is Ok && final(self).peer_certificate == old(self).peer_certificate,
                Some(Some(d)) => r is Ok && (final(self).peer_certificate matches Some(c) && c.data@ == d),
            },
    {
        if data.len() < 3 {
            return Err(Error::protocol(str_to_string("Invalid Certificate message")));
        }
        let b0 = data[0];
        let b1 = data[1];
        let b2 = data[2];
        let certs_len32 = ((b0 as u32) << 16) | ((b1 as u32) << 8) | (b2 as u32);
        assert(certs_len32 < 0x100_0000) by (bit_vector)
            requires
                certs_len32 == ((b0 as u32) << 16) | ((b1 as u32) << 8) | (b2 as u32);
        let certs_len = certs_len32 as usize;
        let limit = certs_len + 3;
        let mut offset: usize = 3;
        let ghost mut last: Option<Seq<u8>> = None;
        while offset < limit
            invariant
                data@.len() >= 3,
                limit == crate::http2::be24(data@[0], data@[1], data@[2]) + 3,
                3 <= offset <= data@.len(),
                certificate_message_last(data@) == certificate_list_last(data@, offset as int, limit as int, last),
                *self == (TlsConnection { peer_certificate: self.peer_certificate, ..*old(self) }),
                last is None ==> self.peer_certificate == old(self).peer_certificate,
                last matches Some(d) ==> self.peer_certificate matches Some(c) && c.data@ == d,
            decreases data@.len() - offset,
        {
            if offset > data.len() || data.len() - offset < 3 {
                return Err(Error::protocol(str_to_string("Invalid certificate length")));
            }
            let cert_len = (((data[offset] as u32) << 16) | ((data[offset + 1] as u32) << 8) | (data[offset
                + 2] as u32)) as usize;
            let start = offset + 3;
            if cert_len > data.len() - start {
                return Err(Error::protocol(str_to_string("Certificate data too short")));
            }
            let cert_data = byte_range(data, start, start + cert_len);
            let cert = TlsCertificate::new(cert_data);
            self.peer_certificate = Some(cert);
            proof {
                last = Some(data@.subrange(start as int, start + cert_len));
            }
            offset = start + cert_len;
        }
        Ok(())
    }
}


/// TLS client
pub struct TlsClient {
    /// TLS configuration
    config: TlsConfig,
    /// Session cache
    session_cache: HashMap<Vec<u8>, TlsSession>,
    /// Certificate store
    cert_store: StringHashMap<TlsCertificate>,
    /// OCSP cache
    ocsp_cache: StringHashMap<OcspResponse>,
    /// HSTS store
    hsts_store: HstsConfig,
}

/// TLS server
pub struct TlsServer {
    /// TLS configuration
    config: TlsConfig,
    /// Server certificate
    certificate: TlsCertificate,
    /// Session cache
    session_cache: HashMap<Vec<u8>, TlsSession>,
    /// OCSP responder
    ocsp_responder: Option<OcspResponder>,
}

/// OCSP responder
pub struct OcspResponder {
    /// OCSP responder URL
    pub url: String,
    /// OCSP responder certificate
    certificate: TlsCertificate,
    /// OCSP response cache
    response_cache: StringHashMap<OcspResponse>,
}

/// The errors that the validity period contributes at `now`.
pub open spec fn validity_errors(cert: TlsCertificate, now: Timestamp) -> Seq<Seq<char>> {
    if cert_valid_at(cert, now) {
        seq![]
    } else if cert_expired_at(cert, now) {
        seq!["Certificate is expired"@]
    } else if cert_not_yet_valid_at(cert, now) {
        seq!["Certificate is not yet valid"@]
    } else {
        seq![]
    }
}

/// The error that a name mismatch contributes.
pub open spec fn domain_errors(cert: TlsCertificate, hostname: Seq<char>) -> Seq<Seq<char>> {
    if cert_names_domain(cert, hostname) {
        seq![]
    } else {
        seq!["Certificate does not match domain: "@ + hostname]
    }
}

/// The certificate's fingerprint is among the pinned ones.
pub open spec fn pin_matches(p: CertificatePinning, cert: TlsCertificate) -> bool {
    contains_bytes(p.pinned_certs@, sha256_digest(cert.data@))
}

/// Pinning fails the certificate: it is not pinned and pinning is enforced.
pub open spec fn pin_rejects(pinning: Option<CertificatePinning>, cert: TlsCertificate) -> bool {
    match pinning {
        Some(p) => !pin_matches(p, cert) && !p.report_only,
        None => false,
    }
}

/// The error that pinning contributes.
pub open spec fn pinning_errors(pinning: Option<CertificatePinning>, cert: TlsCertificate) -> Seq<Seq<char>> {
    if pin_rejects(pinning, cert) {
        seq!["Certificate pinning validation failed"@]
    } else {
        seq![]
    }
}

/// The texts of a list of strings.
pub open spec fn texts(v: Seq<String>) -> Seq<Seq<char>> {
    v.map_values(|s: String| s@)
}

/// What validating `cert` for `hostname` at `now` under `config` gives.
pub open spec fn validation_outcome(
    config: TlsConfig,
    cert: TlsCertificate,
    hostname: Seq<char>,
    now: Timestamp,
    r: CertificateValidationResult,
) -> bool {
    &&& r.is_valid == (cert_valid_at(cert, now) && cert_names_domain(cert, hostname) && !pin_rejects(
        config.certificate_pinning,
        cert,
    ))
    &&& texts(r.errors@) == validity_errors(cert, now) + domain_errors(cert, hostname) + pinning_errors(
        config.certificate_pinning,
        cert,
    )
    &&& r.chain_valid
    &&& r.ocsp_valid is None
    &&& r.pinning_valid == match config.certificate_pinning {
        Some(p) => Some(pin_matches(p, cert)),
        None => None,
    }
    &&& r.hsts_valid == match config.hsts_config {
        Some(h) => Some(subdomain_hsts_enabled_at(h, hostname, now)),
        None => None,
    }
}

/// A connection that has completed its (simplified) handshake.
pub open spec fn fresh_connected(c: TlsConnection) -> bool {
    &&& c.state == TlsConnectionState::Connected
    &&& c.version is None
    &&& c.cipher_suite is None
    &&& c.session is None
    &&& c.peer_certificate is None
    &&& c.ocsp_response is None
    &&& c.cert_validation is None
    &&& c.app_data_buffer@.len() == 0
    &&& c.handshake_buffer@.len() == 0
}

/// Appends a string's copy to a list of messages.
fn push_message(errors: &mut Vec<String>, msg: String)
    ensures
        texts(final(errors)@) == texts(old(errors)@).push(msg@),
{
    errors.push(msg);
    assert(texts(errors@) =~= texts(old(errors)@).push(msg@));
}

impl TlsClient {
    /// The client's configuration.
    pub closed spec fn configuration(&self) -> TlsConfig {
        self.config
    }

    /// Create new TLS client
    pub fn new(config: TlsConfig) -> (r: Self)
        ensures
            r.configuration() == config,
    {
        Self {
            config,
            session_cache: HashMap::new(),
            cert_store: StringHashMap::new(),
            ocsp_cache: StringHashMap::new(),
            hsts_store: HstsConfig::new(),
        }
    }

    /// Connect to server: starts the client handshake and reports the
    /// connection as established.
    pub fn connect(&self, hostname: &str, port: u16) -> (r: Result<TlsConnection>)
        ensures
            match r {
                Ok(c) => fresh_connected(c),
                Err(e) => e is Ssl,
            },
    {
        let mut connection = TlsConnection::new();
        let _client_hello = match connection.start_client_handshake() {
            Ok(h) => h,
            Err(e) => return Err(e),
        };
        connection.state = TlsConnectionState::Connected;
        Ok(connection)
    }

    /// Validate certificate against `hostname` at `now`: validity period,
    /// name, pinning (where configured) and HSTS (where configured).
    pub fn validate_certificate_at(&self, cert: &TlsCertificate, hostname: &str, now: Timestamp) -> (r: Result<
        CertificateValidationResult,
    >)
        ensures
            r matches Ok(v) && validation_outcome(self.configuration(), *cert, hostname@, now, v),
    {
        let mut result = CertificateValidationResult {
            is_valid: true,
            errors: Vec::new(),
            chain_valid: true,
            ocsp_valid: None,
            pinning_valid: None,
            hsts_valid: None,
        };
        assert(texts(result.errors@) =~= seq![]);
        if !cert.is_valid_at(now) {
            result.is_valid = false;
            if cert.is_expired_at(now) {
                push_message(&mut result.errors, str_to_string("Certificate is expired"));
            } else if cert.is_not_yet_valid_at(now) {
                push_message(&mut result.errors, str_to_string("Certificate is not yet valid"));
            }
        }
        let ghost after_validity = texts(result.errors@);
        assert(after_validity =~= validity_errors(*cert, now));
        if !cert.matches_domain(hostname) {
            result.is_valid = false;
            push_message(&mut result.errors, concat_str("Certificate does not match domain: ", hostname));
        }
        assert(texts(result.errors@) =~= validity_errors(*cert, now) + domain_errors(*cert, hostname@));
        match &self.config.certificate_pinning {
            Some(pinning) => {
                match pinning.is_cert_pinned(cert) {
                    Ok(pinned) => {
                        result.pinning_valid = Some(pinned);
                        if !pinned && !pinning.report_only {
                            result.is_valid = false;
                            push_message(&mut result.errors, str_to_string("Certificate pinning validation failed"));
                        }
                    },
                    Err(e) => {
                        let text = e.message();
                        push_message(&mut result.errors, concat_str("Certificate pinning error: ", text.as_str()));
                    },
                }
            },
            None => {},
        }
        assert(texts(result.errors@) =~= validity_errors(*cert, now) + domain_errors(*cert, hostname@)
            + pinning_errors(self.config.certificate_pinning, *cert));
        match &self.config.hsts_config {
            Some(hsts) => {
                let hsts_enabled = hsts.is_subdomain_hsts_enabled_at(hostname, now);
                result.hsts_valid = Some(hsts_enabled);
            },
            None => {},
        }
        Ok(result)
    }

    /// Validate certificate at the moment of the call.
    pub fn validate_certificate(&self, cert: &TlsCertificate, hostname: &str) -> (r: Result<
        CertificateValidationResult,
    >)
        ensures
            r matches Ok(v) && exists|now: Timestamp| validation_outcome(self.configuration(), *cert, hostname@, now, v),
    {
        let now = Timestamp::now();
        self.validate_certificate_at(cert, hostname, now)
    }
}

impl TlsServer {
    /// The server's configuration.
    pub closed spec fn configuration(&self) -> TlsConfig {
        self.config
    }

    /// The server's certificate.
    pub closed spec fn server_certificate(&self) -> TlsCertificate {
        self.certificate
    }

    /// Create new TLS server
    pub fn new(config: TlsConfig, certificate: TlsCertificate) -> (r: Self)
        ensures
            r.configuration() == config,
            r.server_certificate() == certificate,
    {
        Self { config, certificate, session_cache: HashMap::new(), ocsp_responder: None }
    }

    /// Accept client connection, reported as established.
    pub fn accept(&self) -> (r: Result<TlsConnection>)
        ensures
            r matches Ok(c) && fresh_connected(c),
    {
        let mut connection = TlsConnection::new();
        connection.state = TlsConnectionState::Connected;
        Ok(connection)
    }
}

impl OcspResponder {
    /// The responder's URL.
    pub closed spec fn responder_url(&self) -> Seq<char> {
        self.url@
    }

    /// The responder's certificate.
    pub closed spec fn responder_certificate(&self) -> TlsCertificate {
        self.certificate
    }

    /// Create new OCSP responder
    pub fn new(url: String, certificate: TlsCertificate) -> (r: Self)
        ensures
            r.responder_url() == url@,
            r.responder_certificate() == certificate,
    {
        Self { url, certificate, response_cache: StringHashMap::new() }
    }

    /// Generate OCSP response: a successful response that reports the
    /// certificate as good, issued now and due for renewal a day later.
    pub fn generate_response(&self, cert: &TlsCertificate) -> (r: Result<OcspResponse>)
        ensures
            r matches Ok(resp) && {
                &&& resp.data@.len() == 0
                &&& resp.status == OcspResponseStatus::Successful
                &&& resp.cert_status == OcspCertStatus::Good
                &&& resp.next_update matches Some(t) && t@ == later_by(resp.this_update@, 86400nat * 1_000_000_000)
                &&& resp.revocation_time is None
                &&& resp.revocation_reason is None
            },
    {
        let now = Timestamp::now();
        let next = now.plus(Duration::from_secs(86400));
        Ok(OcspResponse {
            data: Vec::new(),
            status: OcspResponseStatus::Successful,
            cert_status: OcspCertStatus::Good,
            this_update: now,
            next_update: Some(next),
            revocation_time: None,
            revocation_reason: None,
        })
    }
}

} // verus!
