//! Web security policies: mixed content, cross-origin read blocking (CORB),
//! cross-origin resource sharing (CORS), and the opener and embedder
//! policies (COOP, COEP), with a manager that records violations.

use vstd::prelude::*;
use crate::error::{Error, Result};
use crate::table::{KeyedTable, table_get, table_insert, table_keys, lemma_get_after_insert,
    lemma_get_other_after_insert};
use crate::text::{has_prefix, has_suffix, str_chars, slice_chars, chars_equal, str_ends_with, str_starts_with, str_equal, str_to_string, concat_str, push_str, join_strings,
    join_strs, decimal, decimal_string, copy_string};
use crate::time::{Duration, Timestamp};
use crate::tls::{contains_string, list_contains_string, texts};

verus! {

/// Content type for mixed content detection
#[derive(Debug, Clone, Copy, PartialEq, Eq, Hash, Structural)]
pub enum ContentType {
    Script,
    Style,
    Image,
    Audio,
    Video,
    Font,
    Object,
    Embed,
    Plugin,
    Frame,
    Iframe,
    XmlHttpRequest,
    Fetch,
    WebSocket,
    Other,
}

/// Mixed content type
#[derive(Debug, Clone, Copy, PartialEq, Eq, Structural)]
pub enum MixedContentType {
    Blockable,
    OptionallyBlockable,
    Allowable,
}

/// Scripts, styles and plugin content are blockable.
pub open spec fn blockable(c: ContentType) -> bool {
    c is Script || c is Style || c is Object || c is Embed || c is Plugin
}

/// Images, audio, video and fonts are optionally blockable.
pub open spec fn optionally_blockable(c: ContentType) -> bool {
    c is Image || c is Audio || c is Video || c is Font
}

/// Frames, requests, sockets and everything else are allowable.
pub open spec fn allowable(c: ContentType) -> bool {
    c is Frame || c is Iframe || c is XmlHttpRequest || c is Fetch || c is WebSocket || c is Other
}

/// The mixed content category of a content type.
pub open spec fn mixed_category(c: ContentType) -> MixedContentType {
    if blockable(c) {
        MixedContentType::Blockable
    } else if optionally_blockable(c) {
        MixedContentType::OptionallyBlockable
    } else {
        MixedContentType::Allowable
    }
}

/// The MIME type that stands for a content type.
pub open spec fn content_mime(c: ContentType) -> Seq<char> {
    match c {
        ContentType::Script => "application/javascript"@,
        ContentType::Style => "text/css"@,
        ContentType::Image => "image/*"@,
        ContentType::Audio => "audio/*"@,
        ContentType::Video => "video/*"@,
        ContentType::Font => "font/*"@,
        ContentType::Object => "application/*"@,
        ContentType::Embed => "application/*"@,
        ContentType::Plugin => "application/*"@,
        ContentType::Frame => "text/html"@,
        ContentType::Iframe => "text/html"@,
        ContentType::XmlHttpRequest => "application/json"@,
        ContentType::Fetch => "application/json"@,
        ContentType::WebSocket => "application/websocket"@,
        ContentType::Other => "*/*"@,
    }
}

/// Every content type falls in exactly one of the three categories, and its
/// category is the one it falls in.
pub proof fn lemma_content_categories(c: ContentType)
    ensures
        blockable(c) || optionally_blockable(c) || allowable(c),
        !(blockable(c) && optionally_blockable(c)),
        !(blockable(c) && allowable(c)),
        !(optionally_blockable(c) && allowable(c)),
        (mixed_category(c) == MixedContentType::Blockable) == blockable(c),
        (mixed_category(c) == MixedContentType::OptionallyBlockable) == optionally_blockable(c),
        (mixed_category(c) == MixedContentType::Allowable) == allowable(c),
{
}

impl ContentType {
    /// Check if content type is blockable
    pub fn is_blockable(&self) -> (r: bool)
        ensures
            r == blockable(*self),
    {
        match self {
            ContentType::Script | ContentType::Style | ContentType::Object | ContentType::Embed
            | ContentType::Plugin => true,
            _ => false,
        }
    }

    /// Check if content type is optionally blockable
    pub fn is_optionally_blockable(&self) -> (r: bool)
        ensures
            r == optionally_blockable(*self),
    {
        match self {
            ContentType::Image | ContentType::Audio | ContentType::Video | ContentType::Font => true,
            _ => false,
        }
    }

    /// Check if content type is allowable
    pub fn is_allowable(&self) -> (r: bool)
        ensures
            r == allowable(*self),
    {
        match self {
            ContentType::Frame | ContentType::Iframe | ContentType::XmlHttpRequest | ContentType::Fetch
            | ContentType::WebSocket | ContentType::Other => true,
            _ => false,
        }
    }

    /// Get mixed content type
    pub fn mixed_content_type(&self) -> (r: MixedContentType)
        ensures
            r == mixed_category(*self),
    {
        if self.is_blockable() {
            MixedContentType::Blockable
        } else if self.is_optionally_blockable() {
            MixedContentType::OptionallyBlockable
        } else {
            MixedContentType::Allowable
        }
    }

    /// Get MIME type for content type
    pub fn mime_type(&self) -> (r: &'static str)
        ensures
            r@ == content_mime(*self),
    {
        match self {
            ContentType::Script => "application/javascript",
            ContentType::Style => "text/css",
            ContentType::Image => "image/*",
            ContentType::Audio => "audio/*",
            ContentType::Video => "video/*",
            ContentType::Font => "font/*",
            ContentType::Object => "application/*",
            ContentType::Embed => "application/*",
            ContentType::Plugin => "application/*",
            ContentType::Frame => "text/html",
            ContentType::Iframe => "text/html",
            ContentType::XmlHttpRequest => "application/json",
            ContentType::Fetch => "application/json",
            ContentType::WebSocket => "application/websocket",
            ContentType::Other => "*/*",
        }
    }
}

/// Whether a list of content types holds `c`.
pub fn contains_content_type(v: &Vec<ContentType>, c: ContentType) -> (r: bool)
    ensures
        r == v@.contains(c),
{
    let mut i: usize = 0;
    while i < v.len()
        invariant
            i <= v@.len(),
            forall|j: int| 0 <= j < i ==> v@[j] != c,
        decreases v@.len() - i,
    {
        if v[i] == c {
            assert(v@[i as int] == c);
            return true;
        }
        i = i + 1;
    }
    false
}

/// The URL uses HTTPS.
pub open spec fn https_url(url: Seq<char>) -> bool {
    has_prefix(url, "https://"@)
}

/// Mixed content policy
#[derive(Debug, Clone)]
pub struct MixedContentPolicy {
    /// Whether to block mixed content
    pub block_mixed_content: bool,
    /// Whether to upgrade insecure requests
    pub upgrade_insecure_requests: bool,
    /// Content types to block
    pub blocked_content_types: Vec<ContentType>,
    /// Content types to upgrade
    pub upgraded_content_types: Vec<ContentType>,
    /// Report-only mode
    pub report_only: bool,
}

/// The policy blocks a request of type `c` from `source` to `target`: blocking
/// is on, an insecure page reaches a secure target, and the type is blocked.
pub open spec fn policy_blocks(p: MixedContentPolicy, c: ContentType, source: Seq<char>, target: Seq<char>) -> bool {
    &&& p.block_mixed_content
    &&& !https_url(source)
    &&& https_url(target)
    &&& p.blocked_content_types@.contains(c)
}

/// The policy upgrades a request of type `c` from `source` to `target`:
/// upgrading is on, a secure page reaches an insecure target, and the type is
/// one to upgrade.
pub open spec fn policy_upgrades(p: MixedContentPolicy, c: ContentType, source: Seq<char>, target: Seq<char>) -> bool {
    &&& p.upgrade_insecure_requests
    &&& https_url(source)
    &&& !https_url(target)
    &&& p.upgraded_content_types@.contains(c)
}

/// The default mixed content policy: blocking scripts, styles and plugins, upgrading media.
pub open spec fn default_mixed_policy(p: MixedContentPolicy) -> bool {
    &&& p.block_mixed_content
    &&& p.upgrade_insecure_requests
    &&& p.blocked_content_types@ == seq![
        ContentType::Script,
        ContentType::Style,
        ContentType::Object,
        ContentType::Embed,
        ContentType::Plugin,
    ]
    &&& p.upgraded_content_types@ == seq![
        ContentType::Image,
        ContentType::Audio,
        ContentType::Video,
        ContentType::Font,
    ]
    &&& !p.report_only
}

impl MixedContentPolicy {
    /// Create default mixed content policy
    pub fn default() -> (r: Self)
        ensures
            default_mixed_policy(r),
    {
        Self {
            block_mixed_content: true,
            upgrade_insecure_requests: true,
            blocked_content_types: vec![
                ContentType::Script,
                ContentType::Style,
                ContentType::Object,
                ContentType::Embed,
                ContentType::Plugin,
            ],
            upgraded_content_types: vec![
                ContentType::Image,
                ContentType::Audio,
                ContentType::Video,
                ContentType::Font,
            ],
            report_only: false,
        }
    }

    /// Check if content should be blocked
    pub fn should_block(&self, content_type: ContentType, source_url: &str, target_url: &str) -> (r: bool)
        ensures
            r == policy_blocks(*self, content_type, source_url@, target_url@),
    {
        if !self.block_mixed_content {
            return false;
        }
        let source_secure = str_starts_with(source_url, "https://");
        let target_secure = str_starts_with(target_url, "https://");
        if source_secure == target_secure {
            return false;
        }
        if !source_secure && target_secure {
            return contains_content_type(&self.blocked_content_types, content_type);
        }
        false
    }

    /// Check if content should be upgraded
    pub fn should_upgrade(&self, content_type: ContentType, source_url: &str, target_url: &str) -> (r: bool)
        ensures
            r == policy_upgrades(*self, content_type, source_url@, target_url@),
    {
        if !self.upgrade_insecure_requests {
            return false;
        }
        let source_secure = str_starts_with(source_url, "https://");
        let target_secure = str_starts_with(target_url, "https://");
        if source_secure && !target_secure {
            return contains_content_type(&self.upgraded_content_types, content_type);
        }
        false
    }
}

/// A request is never both blocked and upgraded: blocking concerns insecure
/// pages, upgrading secure ones.
pub proof fn lemma_block_and_upgrade_exclusive(p: MixedContentPolicy, c: ContentType, source: Seq<char>, target: Seq<char>)
    ensures
        !(policy_blocks(p, c, source, target) && policy_upgrades(p, c, source, target)),
{
}


/// Mixed content violation
#[derive(Debug, Clone)]
pub struct MixedContentViolation {
    /// Violation type
    pub violation_type: MixedContentType,
    /// Content type
    pub content_type: ContentType,
    /// Source URL
    pub source_url: String,
    /// Target URL
    pub target_url: String,
    /// Violation timestamp
    pub timestamp: Timestamp,
    /// Violation details
    pub details: String,
}

/// CORB (Cross-Origin Read Blocking) policy
#[derive(Debug, Clone)]
pub struct CorbPolicy {
    /// Whether CORB is enabled
    pub enabled: bool,
    /// Blocked MIME types
    pub blocked_mime_types: Vec<String>,
    /// Allowed origins
    pub allowed_origins: Vec<String>,
    /// Report-only mode
    pub report_only: bool,
    /// Blocked content types
    pub blocked_content_types: Vec<ContentType>,
}

/// CORB violation
#[derive(Debug, Clone)]
pub struct CorbViolation {
    /// Requested URL
    pub url: String,
    /// Origin
    pub origin: String,
    /// MIME type
    pub mime_type: String,
    /// Content type
    pub content_type: ContentType,
    /// Violation timestamp
    pub timestamp: Timestamp,
    /// Violation details
    pub details: String,
}

/// CORS (Cross-Origin Resource Sharing) policy
#[derive(Debug, Clone)]
pub struct CorsPolicy {
    /// Allowed origins
    pub allowed_origins: Vec<String>,
    /// Allowed methods
    pub allowed_methods: Vec<String>,
    /// Allowed headers
    pub allowed_headers: Vec<String>,
    /// Exposed headers
    pub exposed_headers: Vec<String>,
    /// Max age
    pub max_age: Option<Duration>,
    /// Allow credentials
    pub allow_credentials: bool,
    /// Preflight handling
    pub handle_preflight: bool,
}

/// CORS request
#[derive(Debug, Clone)]
pub struct CorsRequest {
    /// Request origin
    pub origin: String,
    /// Request method
    pub method: String,
    /// Request headers
    pub headers: KeyedTable<String>,
    /// Request URL
    pub url: String,
    /// Whether request includes credentials
    pub credentials: bool,
}

/// CORS response
#[derive(Debug, Clone)]
pub struct CorsResponse {
    /// Response headers
    pub headers: KeyedTable<String>,
    /// Whether request is allowed
    pub allowed: bool,
    /// CORS headers to add
    pub cors_headers: KeyedTable<String>,
    /// Error message if not allowed
    pub error: Option<String>,
}

/// COOP (Cross-Origin Opener Policy) policy
#[derive(Debug, Clone)]
pub struct CoopPolicy {
    /// COOP value
    pub value: CoopValue,
    /// Report-only mode
    pub report_only: bool,
    /// Report URI
    pub report_uri: Option<String>,
}

/// COOP value
#[derive(Debug, Clone, Copy, PartialEq, Eq, Structural)]
pub enum CoopValue {
    UnsafeNone,
    SameOrigin,
    SameOriginAllowPopups,
}

/// COEP (Cross-Origin Embedder Policy) policy
#[derive(Debug, Clone)]
pub struct CoepPolicy {
    /// COEP value
    pub value: CoepValue,
    /// Report-only mode
    pub report_only: bool,
    /// Report URI
    pub report_uri: Option<String>,
}

/// COEP value
#[derive(Debug, Clone, Copy, PartialEq, Eq, Structural)]
pub enum CoepValue {
    UnsafeNone,
    RequireCorp,
}

/// A table of strings viewed as (key, text) pairs.
pub open spec fn text_pairs(t: Seq<(Seq<char>, String)>) -> Seq<(Seq<char>, Seq<char>)> {
    t.map_values(|p: (Seq<char>, String)| (p.0, p.1@))
}

/// CORB blocks a read of `mime` content of type `c` by `origin`: CORB is on,
/// and the origin is not among a non-empty list of allowed ones, or both the
/// MIME type and the content type are blocked (a blocked MIME type read as an
/// image or as media is let through).
pub open spec fn corb_blocks(p: CorbPolicy, origin: Seq<char>, mime: Seq<char>, c: ContentType) -> bool {
    &&& p.enabled
    &&& {
        ||| (p.allowed_origins@.len() > 0 && !contains_string(p.allowed_origins@, origin))
        ||| (contains_string(p.blocked_mime_types@, mime) && p.blocked_content_types@.contains(c))
    }
}

/// The default CORB policy: on, for document and data MIME types and blockable content.
pub open spec fn default_corb_policy(p: CorbPolicy) -> bool {
    &&& p.enabled
    &&& texts(p.blocked_mime_types@) == seq![
        "text/html"@,
        "text/xml"@,
        "text/plain"@,
        "application/json"@,
        "application/xml"@,
    ]
    &&& p.allowed_origins@.len() == 0
    &&& !p.report_only
    &&& p.blocked_content_types@ == seq![
        ContentType::Script,
        ContentType::Style,
        ContentType::Object,
        ContentType::Embed,
        ContentType::Plugin,
    ]
}

impl CorbPolicy {
    /// Create default CORB policy
    pub fn default() -> (r: Self)
        ensures
            default_corb_policy(r),
    {
        let blocked_mime_types = vec![
            str_to_string("text/html"),
            str_to_string("text/xml"),
            str_to_string("text/plain"),
            str_to_string("application/json"),
            str_to_string("application/xml"),
        ];
        assert(texts(blocked_mime_types@) =~= seq![
            "text/html"@,
            "text/xml"@,
            "text/plain"@,
            "application/json"@,
            "application/xml"@,
        ]);
        Self {
            enabled: true,
            blocked_mime_types,
            allowed_origins: Vec::new(),
            report_only: false,
            blocked_content_types: vec![
                ContentType::Script,
                ContentType::Style,
                ContentType::Object,
                ContentType::Embed,
                ContentType::Plugin,
            ],
        }
    }

    /// Check if request should be blocked
    pub fn should_block(&self, origin: &str, url: &str, mime_type: &str, content_type: ContentType) -> (r: bool)
        ensures
            r == corb_blocks(*self, origin@, mime_type@, content_type),
    {
        if !self.enabled {
            return false;
        }
        if self.allowed_origins.len() > 0 && !list_contains_string(&self.allowed_origins, origin) {
            return true;
        }
        list_contains_string(&self.blocked_mime_types, mime_type) && contains_content_type(
            &self.blocked_content_types,
            content_type,
        )
    }
}

/// The first key of the list that the allowed headers do not hold.
pub open spec fn first_disallowed(keys: Seq<Seq<char>>, allowed: Seq<String>) -> Option<Seq<char>>
    decreases keys.len(),
{
    if keys.len() == 0 {
        None
    } else if !contains_string(allowed, keys[0]) {
        Some(keys[0])
    } else {
        first_disallowed(keys.drop_first(), allowed)
    }
}

/// The headers that grant a preflight: the origin, the allowed methods and
/// headers, the maximum age (where set) and credentials (where allowed).
pub open spec fn preflight_grant(p: CorsPolicy, origin: Seq<char>) -> Seq<(Seq<char>, Seq<char>)> {
    let base = seq![
        ("Access-Control-Allow-Origin"@, origin),
        ("Access-Control-Allow-Methods"@, join_strs(texts(p.allowed_methods@), ", "@)),
        ("Access-Control-Allow-Headers"@, join_strs(texts(p.allowed_headers@), ", "@)),
    ];
    let with_age = match p.max_age {
        Some(d) => base.push(("Access-Control-Max-Age"@, decimal(d@ / 1_000_000_000))),
        None => base,
    };
    if p.allow_credentials {
        with_age.push(("Access-Control-Allow-Credentials"@, "true"@))
    } else {
        with_age
    }
}

/// The headers that grant a request: those of a preflight, and the exposed
/// headers where there are any.
pub open spec fn cors_grant(p: CorsPolicy, origin: Seq<char>) -> Seq<(Seq<char>, Seq<char>)> {
    if p.exposed_headers@.len() > 0 {
        preflight_grant(p, origin).push(
            ("Access-Control-Expose-Headers"@, join_strs(texts(p.exposed_headers@), ", "@)),
        )
    } else {
        preflight_grant(p, origin)
    }
}

/// The policy allows `origin`: it allows every origin (`*`) or this one.
pub open spec fn cors_origin_allowed(p: CorsPolicy, origin: Seq<char>) -> bool {
    contains_string(p.allowed_origins@, "*"@) || contains_string(p.allowed_origins@, origin)
}

/// A response that refuses, with the given message.
pub open spec fn cors_refusal(r: CorsResponse, msg: Seq<char>) -> bool {
    &&& !r.allowed
    &&& r.error matches Some(e) && e@ == msg
    &&& r.cors_headers@.len() == 0
    &&& r.headers@.len() == 0
}

/// What processing a CORS request under `p` answers: a refusal for an origin,
/// a method or (the first, in the request's order) a header the policy does
/// not allow, else the granting headers.
pub open spec fn cors_outcome(p: CorsPolicy, req: CorsRequest, r: CorsResponse) -> bool {
    if !cors_origin_allowed(p, req.origin@) {
        cors_refusal(r, "Origin not allowed"@)
    } else if !contains_string(p.allowed_methods@, req.method@) {
        cors_refusal(r, "Method not allowed"@)
    } else if let Some(h) = first_disallowed(table_keys(req.headers@), p.allowed_headers@) {
        cors_refusal(r, "Header not allowed: "@ + h)
    } else {
        &&& r.allowed
        &&& r.error is None
        &&& text_pairs(r.cors_headers@) == cors_grant(p, req.origin@)
        &&& r.headers@.len() == 0
    }
}

/// Stores a text under a key that the table does not hold yet.
fn add_header(t: &mut KeyedTable<String>, key: &str, value: String)
    requires
        !table_keys(old(t)@).contains(key@),
    ensures
        final(t)@ == old(t)@.push((key@, value)),
        text_pairs(final(t)@) == text_pairs(old(t)@).push((key@, value@)),
        table_keys(final(t)@) == table_keys(old(t)@).push(key@),
{
    let ghost v = value;
    t.insert(str_to_string(key), value);
    proof {
        crate::table::lemma_insert_new_key(old(t)@, key@, v);
        assert(text_pairs(t@) =~= text_pairs(old(t)@).push((key@, v@)));
        assert(table_keys(t@) =~= table_keys(old(t)@).push(key@));
    }
}

/// A response with no headers yet.
fn empty_response(allowed: bool, error: Option<String>) -> (r: CorsResponse)
    ensures
        r.allowed == allowed,
        r.error == error,
        r.cors_headers@.len() == 0,
        r.headers@.len() == 0,
{
    CorsResponse { headers: KeyedTable::new(), allowed, cors_headers: KeyedTable::new(), error }
}

/// Adds the headers that grant a preflight to an empty table.
fn add_preflight_headers(t: &mut KeyedTable<String>, p: &CorsPolicy, origin: &String)
    requires
        old(t)@.len() == 0,
    ensures
        text_pairs(final(t)@) == preflight_grant(*p, origin@),
        table_keys(final(t)@) == preflight_grant(*p, origin@).map_values(|e: (Seq<char>, Seq<char>)| e.0),
{
    proof {
        reveal_strlit("Access-Control-Allow-Origin");
        reveal_strlit("Access-Control-Allow-Methods");
        reveal_strlit("Access-Control-Allow-Headers");
        reveal_strlit("Access-Control-Max-Age");
        reveal_strlit("Access-Control-Allow-Credentials");
    }
    let ghost origin_key = "Access-Control-Allow-Origin"@;
    let ghost methods_key = "Access-Control-Allow-Methods"@;
    let ghost headers_key = "Access-Control-Allow-Headers"@;
    let ghost age_key = "Access-Control-Max-Age"@;
    let ghost credentials_key = "Access-Control-Allow-Credentials"@;
    assert(methods_key != origin_key && headers_key != origin_key && age_key != origin_key
        && credentials_key != origin_key && age_key != methods_key && credentials_key != methods_key
        && age_key != headers_key && credentials_key != headers_key && credentials_key != age_key) by {
        assert(origin_key.len() == 27 && methods_key.len() == 28 && headers_key.len() == 28);
        assert(age_key.len() == 22 && credentials_key.len() == 32);
    }
    assert(headers_key != methods_key) by {
        assert(headers_key[21] != methods_key[21]);
    }
    assert(table_keys(t@) =~= Seq::<Seq<char>>::empty());
    assert(text_pairs(t@) =~= Seq::<(Seq<char>, Seq<char>)>::empty());
    add_header(t, "Access-Control-Allow-Origin", copy_string(origin));
    assert(table_keys(t@) =~= seq![origin_key]);
    add_header(t, "Access-Control-Allow-Methods", join_strings(&p.allowed_methods, ", "));
    assert(table_keys(t@) =~= seq![origin_key, methods_key]);
    add_header(t, "Access-Control-Allow-Headers", join_strings(&p.allowed_headers, ", "));
    assert(table_keys(t@) =~= seq![origin_key, methods_key, headers_key]);
    match p.max_age {
        Some(d) => {
            add_header(t, "Access-Control-Max-Age", decimal_string(d.as_secs() as u128));
            assert(table_keys(t@) =~= seq![origin_key, methods_key, headers_key, age_key]);
        },
        None => {},
    }
    if p.allow_credentials {
        add_header(t, "Access-Control-Allow-Credentials", str_to_string("true"));
    }
    assert(text_pairs(t@) =~= preflight_grant(*p, origin@));
    assert(table_keys(t@) =~= preflight_grant(*p, origin@).map_values(|e: (Seq<char>, Seq<char>)| e.0));
}

/// The default CORS policy: any origin, the common methods and headers, a day's maximum age.
pub open spec fn default_cors_policy(p: CorsPolicy) -> bool {
    &&& texts(p.allowed_origins@) == seq!["*"@]
    &&& texts(p.allowed_methods@) == seq!["GET"@, "POST"@, "PUT"@, "DELETE"@, "HEAD"@, "OPTIONS"@]
    &&& texts(p.allowed_headers@) == seq!["Content-Type"@, "Authorization"@, "X-Requested-With"@]
    &&& p.exposed_headers@.len() == 0
    &&& p.max_age matches Some(d) && d@ == 86400nat * 1_000_000_000
    &&& !p.allow_credentials
    &&& p.handle_preflight
}

impl CorsPolicy {
    /// Create default CORS policy
    pub fn default() -> (r: Self)
        ensures
            default_cors_policy(r),
    {
        let allowed_origins = vec![str_to_string("*")];
        let allowed_methods = vec![
            str_to_string("GET"),
            str_to_string("POST"),
            str_to_string("PUT"),
            str_to_string("DELETE"),
            str_to_string("HEAD"),
            str_to_string("OPTIONS"),
        ];
        let allowed_headers = vec![
            str_to_string("Content-Type"),
            str_to_string("Authorization"),
            str_to_string("X-Requested-With"),
        ];
        assert(texts(allowed_origins@) =~= seq!["*"@]);
        assert(texts(allowed_methods@) =~= seq!["GET"@, "POST"@, "PUT"@, "DELETE"@, "HEAD"@, "OPTIONS"@]);
        assert(texts(allowed_headers@) =~= seq!["Content-Type"@, "Authorization"@, "X-Requested-With"@]);
        Self {
            allowed_origins,
            allowed_methods,
            allowed_headers,
            exposed_headers: Vec::new(),
            max_age: Some(Duration::from_secs(86400)),
            allow_credentials: false,
            handle_preflight: true,
        }
    }

    /// Check if origin is allowed
    pub fn is_origin_allowed(&self, origin: &str) -> (r: bool)
        ensures
            r == cors_origin_allowed(*self, origin@),
    {
        list_contains_string(&self.allowed_origins, "*") || list_contains_string(&self.allowed_origins, origin)
    }

    /// Check if method is allowed
    pub fn is_method_allowed(&self, method: &str) -> (r: bool)
        ensures
            r == contains_string(self.allowed_methods@, method@),
    {
        list_contains_string(&self.allowed_methods, method)
    }

    /// Check if header is allowed
    pub fn is_header_allowed(&self, header: &str) -> (r: bool)
        ensures
            r == contains_string(self.allowed_headers@, header@),
    {
        list_contains_string(&self.allowed_headers, header)
    }

    /// Process CORS request
    pub fn process_request(&self, request: &CorsRequest) -> (r: CorsResponse)
        ensures
            cors_outcome(*self, *request, r),
    {
        if !self.is_origin_allowed(request.origin.as_str()) {
            return empty_response(false, Some(str_to_string("Origin not allowed")));
        }
        if !self.is_method_allowed(request.method.as_str()) {
            return empty_response(false, Some(str_to_string("Method not allowed")));
        }
        let keys = request.headers.keys();
        let ghost ks = table_keys(request.headers@);
        assert(ks.subrange(0, ks.len() as int) =~= ks);
        let mut i: usize = 0;
        while i < keys.len()
            invariant
                i <= keys@.len(),
                texts(keys@) == ks,
                ks == table_keys(request.headers@),
                cors_origin_allowed(*self, request.origin@),
                contains_string(self.allowed_methods@, request.method@),
                first_disallowed(ks, self.allowed_headers@) == first_disallowed(
                    ks.subrange(i as int, ks.len() as int),
                    self.allowed_headers@,
                ),
            decreases keys@.len() - i,
        {
            let ghost rest = ks.subrange(i as int, ks.len() as int);
            assert(ks[i as int] == keys@[i as int]@);
            assert(rest[0] == keys@[i as int]@);
            if !self.is_header_allowed(keys[i].as_str()) {
                let r = empty_response(false, Some(concat_str("Header not allowed: ", keys[i].as_str())));
                assert(first_disallowed(ks, self.allowed_headers@) == Some(keys@[i as int]@));
                return r;
            }
            assert(rest.drop_first() =~= ks.subrange(i + 1, ks.len() as int));
            i = i + 1;
        }
        assert(ks.subrange(i as int, ks.len() as int) =~= Seq::<Seq<char>>::empty());
        let mut response = empty_response(true, None);
        add_preflight_headers(&mut response.cors_headers, self, &request.origin);
        if self.exposed_headers.len() > 0 {
            proof {
                reveal_strlit("Access-Control-Allow-Origin");
                reveal_strlit("Access-Control-Allow-Methods");
                reveal_strlit("Access-Control-Allow-Headers");
                reveal_strlit("Access-Control-Max-Age");
                reveal_strlit("Access-Control-Allow-Credentials");
                reveal_strlit("Access-Control-Expose-Headers");
                let ks2 = table_keys(response.cors_headers@);
                if ks2.contains("Access-Control-Expose-Headers"@) {
                    let j = choose|j: int| 0 <= j < ks2.len() && ks2[j] == "Access-Control-Expose-Headers"@;
                    assert(ks2[j][15] != "Access-Control-Expose-Headers"@[15]);
                }
            }
            add_header(&mut response.cors_headers, "Access-Control-Expose-Headers", join_strings(&self.exposed_headers, ", "));
        }
        response
    }
}

/// The default COOP policy.
pub open spec fn default_coop_policy(p: CoopPolicy) -> bool {
    &&& p.value == CoopValue::UnsafeNone
    &&& !p.report_only
    &&& p.report_uri is None
}

impl CoopPolicy {
    /// Create default COOP policy
    pub fn default() -> (r: Self)
        ensures
            default_coop_policy(r),
    {
        Self { value: CoopValue::UnsafeNone, report_only: false, report_uri: None }
    }

    /// Get COOP header value
    pub fn header_value(&self) -> (r: String)
        ensures
            r@ == match self.value {
                CoopValue::UnsafeNone => "unsafe-none"@,
                CoopValue::SameOrigin => "same-origin"@,
                CoopValue::SameOriginAllowPopups => "same-origin-allow-popups"@,
            },
    {
        match self.value {
            CoopValue::UnsafeNone => str_to_string("unsafe-none"),
            CoopValue::SameOrigin => str_to_string("same-origin"),
            CoopValue::SameOriginAllowPopups => str_to_string("same-origin-allow-popups"),
        }
    }

    /// Check if popup is allowed: always, but under `same-origin` only for
    /// the opener's own origin.
    pub fn is_popup_allowed(&self, opener_origin: &str, popup_origin: &str) -> (r: bool)
        ensures
            r == (self.value == CoopValue::SameOrigin ==> opener_origin@ == popup_origin@),
    {
        match self.value {
            CoopValue::UnsafeNone => true,
            CoopValue::SameOrigin => str_equal(opener_origin, popup_origin),
            CoopValue::SameOriginAllowPopups => true,
        }
    }
}

/// The default COEP policy.
pub open spec fn default_coep_policy(p: CoepPolicy) -> bool {
    &&& p.value == CoepValue::UnsafeNone
    &&& !p.report_only
    &&& p.report_uri is None
}

impl CoepPolicy {
    /// Create default COEP policy
    pub fn default() -> (r: Self)
        ensures
            default_coep_policy(r),
    {
        Self { value: CoepValue::UnsafeNone, report_only: false, report_uri: None }
    }

    /// Get COEP header value
    pub fn header_value(&self) -> (r: String)
        ensures
            r@ == match self.value {
                CoepValue::UnsafeNone => "unsafe-none"@,
                CoepValue::RequireCorp => "require-corp"@,
            },
    {
        match self.value {
            CoepValue::UnsafeNone => str_to_string("unsafe-none"),
            CoepValue::RequireCorp => str_to_string("require-corp"),
        }
    }

    /// Check if resource is allowed: always, but under `require-corp` only
    /// from the document's own origin or with a CORP header.
    pub fn is_resource_allowed(&self, resource_origin: &str, document_origin: &str, has_corp_header: bool) -> (r:
        bool)
        ensures
            r == (self.value == CoepValue::RequireCorp ==> resource_origin@ == document_origin@ || has_corp_header),
    {
        match self.value {
            CoepValue::UnsafeNone => true,
            CoepValue::RequireCorp => str_equal(resource_origin, document_origin) || has_corp_header,
        }
    }
}

/// Security context
#[derive(Debug, Clone)]
pub struct SecurityContext {
    /// Document origin
    pub origin: String,
    /// Document URL
    pub url: String,
    /// Whether document is secure
    pub is_secure: bool,
    /// Mixed content policy
    pub mixed_content_policy: MixedContentPolicy,
    /// CORB policy
    pub corb_policy: CorbPolicy,
    /// CORS policy
    pub cors_policy: CorsPolicy,
    /// COOP policy
    pub coop_policy: CoopPolicy,
    /// COEP policy
    pub coep_policy: CoepPolicy,
}

/// Global security policies
#[derive(Debug, Clone)]
pub struct GlobalSecurityPolicies {
    /// Default mixed content policy
    pub default_mixed_content_policy: MixedContentPolicy,
    /// Default CORB policy
    pub default_corb_policy: CorbPolicy,
    /// Default CORS policy
    pub default_cors_policy: CorsPolicy,
    /// Default COOP policy
    pub default_coop_policy: CoopPolicy,
    /// Default COEP policy
    pub default_coep_policy: CoepPolicy,
}

/// A fresh context for a document: its origin and URL, secure where the URL
/// uses HTTPS, under the default policies.
pub open spec fn fresh_context(c: SecurityContext, origin: Seq<char>, url: Seq<char>) -> bool {
    &&& c.origin@ == origin
    &&& c.url@ == url
    &&& c.is_secure == https_url(url)
    &&& default_mixed_policy(c.mixed_content_policy)
    &&& default_corb_policy(c.corb_policy)
    &&& default_cors_policy(c.cors_policy)
    &&& default_coop_policy(c.coop_policy)
    &&& default_coep_policy(c.coep_policy)
}

/// A page loads mixed content that its policy blocks: blocking is on, the
/// page is served over HTTPS, the target is not, and the type is blocked.
pub open spec fn page_blocks_mixed(c: SecurityContext, t: ContentType, target: Seq<char>) -> bool {
    &&& c.mixed_content_policy.block_mixed_content
    &&& https_url(c.url@)
    &&& !https_url(target)
    &&& c.mixed_content_policy.blocked_content_types@.contains(t)
}

/// The record of blocked mixed content.
pub open spec fn mixed_violation_for(c: SecurityContext, t: ContentType, target: Seq<char>, v: MixedContentViolation) -> bool {
    &&& v.violation_type == mixed_category(t)
    &&& v.content_type == t
    &&& v.source_url@ == c.url@
    &&& v.target_url@ == target
    &&& v.details@ == "Mixed content blocked: "@ + content_mime(t) + " from "@ + c.url@ + " to "@ + target
}

/// The record of a CORB block.
pub open spec fn corb_violation_for(
    origin: Seq<char>,
    url: Seq<char>,
    mime: Seq<char>,
    t: ContentType,
    v: CorbViolation,
) -> bool {
    &&& v.url@ == url
    &&& v.origin@ == origin
    &&& v.mime_type@ == mime
    &&& v.content_type == t
    &&& v.details@ == "CORB violation: "@ + content_mime(t) + " from "@ + origin + " with MIME type "@ + mime
}

impl SecurityContext {
    /// Create new security context
    pub fn new(origin: String, url: String) -> (r: Self)
        ensures
            fresh_context(r, origin@, url@),
    {
        let is_secure = str_starts_with(url.as_str(), "https://");
        Self {
            origin,
            url,
            is_secure,
            mixed_content_policy: MixedContentPolicy::default(),
            corb_policy: CorbPolicy::default(),
            cors_policy: CorsPolicy::default(),
            coop_policy: CoopPolicy::default(),
            coep_policy: CoepPolicy::default(),
        }
    }

    /// Check for mixed content: a secure page loading a blocked type of
    /// content from an insecure URL.
    pub fn check_mixed_content(&self, content_type: ContentType, target_url: &str) -> (r: Option<
        MixedContentViolation,
    >)
        ensures
            match r {
                Some(v) => page_blocks_mixed(*self, content_type, target_url@) && mixed_violation_for(
                    *self,
                    content_type,
                    target_url@,
                    v,
                ),
                None => !page_blocks_mixed(*self, content_type, target_url@),
            },
    {
        let policy = &self.mixed_content_policy;
        let blocked = policy.block_mixed_content && str_starts_with(self.url.as_str(), "https://")
            && !str_starts_with(target_url, "https://") && contains_content_type(
            &policy.blocked_content_types,
            content_type,
        );
        if blocked {
            let mut details = concat_str("Mixed content blocked: ", content_type.mime_type());
            push_str(&mut details, " from ");
            push_str(&mut details, self.url.as_str());
            push_str(&mut details, " to ");
            push_str(&mut details, target_url);
            Some(
                MixedContentViolation {
                    violation_type: content_type.mixed_content_type(),
                    content_type,
                    source_url: copy_string(&self.url),
                    target_url: str_to_string(target_url),
                    timestamp: Timestamp::now(),
                    details,
                },
            )
        } else {
            None
        }
    }

    /// Check for CORB violation
    pub fn check_corb(&self, origin: &str, url: &str, mime_type: &str, content_type: ContentType) -> (r: Option<
        CorbViolation,
    >)
        ensures
            match r {
                Some(v) => corb_blocks(self.corb_policy, origin@, mime_type@, content_type) && corb_violation_for(
                    origin@,
                    url@,
                    mime_type@,
                    content_type,
                    v,
                ),
                None => !corb_blocks(self.corb_policy, origin@, mime_type@, content_type),
            },
    {
        if self.corb_policy.should_block(origin, url, mime_type, content_type) {
            let mut details = concat_str("CORB violation: ", content_type.mime_type());
            push_str(&mut details, " from ");
            push_str(&mut details, origin);
            push_str(&mut details, " with MIME type ");
            push_str(&mut details, mime_type);
            Some(
                CorbViolation {
                    url: str_to_string(url),
                    origin: str_to_string(origin),
                    mime_type: str_to_string(mime_type),
                    content_type,
                    timestamp: Timestamp::now(),
                    details,
                },
            )
        } else {
            None
        }
    }

    /// Process CORS request
    pub fn process_cors_request(&self, request: &CorsRequest) -> (r: CorsResponse)
        ensures
            cors_outcome(self.cors_policy, *request, r),
    {
        self.cors_policy.process_request(request)
    }
}

/// Security manager: contexts by identifier, the violations recorded, and the
/// global default policies.
pub struct SecurityManager {
    /// Security contexts
    contexts: KeyedTable<SecurityContext>,
    /// Mixed content violations
    mixed_content_violations: Vec<MixedContentViolation>,
    /// CORB violations
    corb_violations: Vec<CorbViolation>,
    /// Global security policies
    global_policies: GlobalSecurityPolicies,
}

/// Global policies that are all the defaults.
pub open spec fn default_global_policies(g: GlobalSecurityPolicies) -> bool {
    &&& default_mixed_policy(g.default_mixed_content_policy)
    &&& default_corb_policy(g.default_corb_policy)
    &&& default_cors_policy(g.default_cors_policy)
    &&& default_coop_policy(g.default_coop_policy)
    &&& default_coep_policy(g.default_coep_policy)
}

impl SecurityManager {
    /// The contexts, by identifier.
    pub closed spec fn context_table(&self) -> Seq<(Seq<char>, SecurityContext)> {
        self.contexts@
    }

    /// The mixed content violations recorded, oldest first.
    pub closed spec fn mixed_log(&self) -> Seq<MixedContentViolation> {
        self.mixed_content_violations@
    }

    /// The CORB violations recorded, oldest first.
    pub closed spec fn corb_log(&self) -> Seq<CorbViolation> {
        self.corb_violations@
    }

    /// The global policies.
    pub closed spec fn policies(&self) -> GlobalSecurityPolicies {
        self.global_policies
    }

    /// Create new security manager
    pub fn new() -> (r: Self)
        ensures
            r.context_table().len() == 0,
            r.mixed_log().len() == 0,
            r.corb_log().len() == 0,
            default_global_policies(r.policies()),
    {
        Self {
            contexts: KeyedTable::new(),
            mixed_content_violations: Vec::new(),
            corb_violations: Vec::new(),
            global_policies: GlobalSecurityPolicies {
                default_mixed_content_policy: MixedContentPolicy::default(),
                default_corb_policy: CorbPolicy::default(),
                default_cors_policy: CorsPolicy::default(),
                default_coop_policy: CoopPolicy::default(),
                default_coep_policy: CoepPolicy::default(),
            },
        }
    }

    /// Create security context, under the identifier `origin:url`, which it returns.
    pub fn create_context(&mut self, origin: String, url: String) -> (r: String)
        ensures
            r@ == origin@ + ":"@ + url@,
            table_get(final(self).context_table(), r@) matches Some(c) && fresh_context(c, origin@, url@),
            forall|k: Seq<char>| k != r@ ==> table_get(final(self).context_table(), k) == table_get(
                old(self).context_table(),
                k,
            ),
            final(self).mixed_log() == old(self).mixed_log(),
            final(self).corb_log() == old(self).corb_log(),
            final(self).policies() == old(self).policies(),
    {
        let mut context_id = copy_string(&origin);
        push_str(&mut context_id, ":");
        push_str(&mut context_id, url.as_str());
        let context = SecurityContext::new(origin, url);
        let ghost c = context;
        let ghost old_t = self.contexts@;
        self.contexts.insert(copy_string(&context_id), context);
        proof {
            lemma_get_after_insert(old_t, context_id@, c);
            assert forall|k: Seq<char>| k != context_id@ implies table_get(self.contexts@, k) == table_get(old_t, k) by {
                lemma_get_other_after_insert(old_t, context_id@, c, k);
            }
        }
        context_id
    }

    /// Get security context
    pub fn get_context(&self, context_id: &str) -> (r: Option<&SecurityContext>)
        ensures
            match table_get(self.context_table(), context_id@) {
                Some(c) => r matches Some(x) && *x == c,
                None => r is None,
            },
    {
        self.contexts.get(context_id)
    }

    /// Check mixed content: blocked (and recorded) where the context exists,
    /// the content is mixed content its policy blocks, and the policy is
    /// enforced rather than report-only.
    pub fn check_mixed_content(&mut self, context_id: &str, content_type: ContentType, target_url: &str) -> (r:
        Result<bool>)
        ensures
            final(self).context_table() == old(self).context_table(),
            final(self).corb_log() == old(self).corb_log(),
            final(self).policies() == old(self).policies(),
            match table_get(old(self).context_table(), context_id@) {
                Some(c) => if page_blocks_mixed(c, content_type, target_url@)
                    && !c.mixed_content_policy.report_only {
                    &&& r matches Ok(b) && b
                    &&& final(self).mixed_log().len() == old(self).mixed_log().len() + 1
                    &&& final(self).mixed_log().drop_last() == old(self).mixed_log()
                    &&& mixed_violation_for(c, content_type, target_url@, final(self).mixed_log().last())
                } else {
                    &&& r matches Ok(b) && !b
                    &&& final(self).mixed_log() == old(self).mixed_log()
                },
                None => (r matches Ok(b) && !b) && final(self).mixed_log() == old(self).mixed_log(),
            },
    {
        match self.contexts.get(context_id) {
            Some(context) => {
                match context.check_mixed_content(content_type, target_url) {
                    Some(violation) => {
                        if !context.mixed_content_policy.report_only {
                            self.mixed_content_violations.push(violation);
                            return Ok(true);
                        }
                    },
                    None => {},
                }
            },
            None => {},
        }
        Ok(false)
    }

    /// Check CORB: blocked (and recorded) where the context exists, its CORB
    /// policy blocks the read, and the policy is enforced.
    pub fn check_corb(&mut self, context_id: &str, origin: &str, url: &str, mime_type: &str, content_type: ContentType) -> (r:
        Result<bool>)
        ensures
            final(self).context_table() == old(self).context_table(),
            final(self).mixed_log() == old(self).mixed_log(),
            final(self).policies() == old(self).policies(),
            match table_get(old(self).context_table(), context_id@) {
                Some(c) => if corb_blocks(c.corb_policy, origin@, mime_type@, content_type)
                    && !c.corb_policy.report_only {
                    &&& r matches Ok(b) && b
                    &&& final(self).corb_log().len() == old(self).corb_log().len() + 1
                    &&& final(self).corb_log().drop_last() == old(self).corb_log()
                    &&& corb_violation_for(origin@, url@, mime_type@, content_type, final(self).corb_log().last())
                } else {
                    &&& r matches Ok(b) && !b
                    &&& final(self).corb_log() == old(self).corb_log()
                },
                None => (r matches Ok(b) && !b) && final(self).corb_log() == old(self).corb_log(),
            },
    {
        match self.contexts.get(context_id) {
            Some(context) => {
                match context.check_corb(origin, url, mime_type, content_type) {
                    Some(violation) => {
                        if !context.corb_policy.report_only {
                            self.corb_violations.push(violation);
                            return Ok(true);
                        }
                    },
                    None => {},
                }
            },
            None => {},
        }
        Ok(false)
    }

    /// Process CORS request under the context's CORS policy.
    pub fn process_cors_request(&self, context_id: &str, request: &CorsRequest) -> (r: Result<CorsResponse>)
        ensures
            match table_get(self.context_table(), context_id@) {
                Some(c) => r matches Ok(resp) && cors_outcome(c.cors_policy, *request, resp),
                None => r matches Err(Error::Security(m)) && m@ == "Security context not found"@,
            },
    {
        match self.contexts.get(context_id) {
            Some(context) => Ok(context.process_cors_request(request)),
            None => Err(Error::security(str_to_string("Security context not found"))),
        }
    }

    /// Get mixed content violations
    pub fn get_mixed_content_violations(&self) -> (r: &Vec<MixedContentViolation>)
        ensures
            r@ == self.mixed_log(),
    {
        &self.mixed_content_violations
    }

    /// Get CORB violations
    pub fn get_corb_violations(&self) -> (r: &Vec<CorbViolation>)
        ensures
            r@ == self.corb_log(),
    {
        &self.corb_violations
    }

    /// Clear violations
    pub fn clear_violations(&mut self)
        ensures
            final(self).mixed_log().len() == 0,
            final(self).corb_log().len() == 0,
            final(self).context_table() == old(self).context_table(),
            final(self).policies() == old(self).policies(),
    {
        self.mixed_content_violations.clear();
        self.corb_violations.clear();
    }

    /// Update global policies
    pub fn update_global_policies(&mut self, policies: GlobalSecurityPolicies)
        ensures
            final(self).policies() == policies,
            final(self).context_table() == old(self).context_table(),
            final(self).mixed_log() == old(self).mixed_log(),
            final(self).corb_log() == old(self).corb_log(),
    {
        self.global_policies = policies;
    }

    /// Get global policies
    pub fn get_global_policies(&self) -> (r: &GlobalSecurityPolicies)
        ensures
            *r == self.policies(),
    {
        &self.global_policies
    }
}

impl Default for SecurityManager {
    fn default() -> (r: Self)
        ensures
            r.context_table().len() == 0,
            r.mixed_log().len() == 0,
            r.corb_log().len() == 0,
            default_global_policies(r.policies()),
    {
        Self::new()
    }
}

/// The parts of a URL that make its origin.
#[derive(Debug, Clone)]
pub struct UrlParts {
    /// The scheme, lower-cased, without the colon
    pub scheme: String,
    /// The host, where the URL has one
    pub host: Option<String>,
    /// The port, where one is given other than the scheme's default
    pub port: Option<u16>,
}

/// What the URL parser makes of a text: its scheme, host and port, or the
/// text of the parse error.
pub uninterp spec fn url_components(text: Seq<char>) -> std::result::Result<
    (Seq<char>, Option<Seq<char>>, Option<u16>),
    Seq<char>,
>;

/// The text of an optional string.
pub open spec fn opt_text(o: Option<String>) -> Option<Seq<char>> {
    match o {
        Some(s) => Some(s@),
        None => None,
    }
}

/// Parses `text` as an absolute URL with `url::Url::parse` and takes its
/// scheme, host and port (`scheme`, `host_str`, `port`), or the error's text.
/// The contract claims only that the result is the parser's, a function of
/// the text alone.
#[verifier::external_body]
pub(crate) fn parse_url(text: &str) -> (r: std::result::Result<UrlParts, String>)
    ensures
        match (r, url_components(text@)) {
            (Ok(p), Ok((scheme, host, port))) => p.scheme@ == scheme && opt_text(p.host) == host && p.port == port,
            (Err(e), Err(m)) => e@ == m,
            _ => false,
        },
{
    match url::Url::parse(text) {
        Ok(u) => Ok(UrlParts { scheme: u.scheme().to_string(), host: u.host_str().map(String::from), port: u.port() }),
        Err(e) => Err(e.to_string()),
    }
}

/// The origin that parsed URL parts give: `scheme://host`, with `:port`
/// where a port is given; an error where the URL did not parse or has no host.
pub open spec fn origin_outcome(parts: std::result::Result<(Seq<char>, Option<Seq<char>>, Option<u16>), Seq<char>>, r: Result<String>) -> bool {
    match parts {
        Err(m) => r matches Err(Error::Security(e)) && e@ == "Invalid URL: "@ + m,
        Ok((scheme, host, port)) => match host {
            None => r matches Err(Error::Security(e)) && e@ == "No host in URL"@,
            Some(h) => r matches Ok(o) && o@ == match port {
                Some(n) => scheme + "://"@ + h + ":"@ + decimal(n as nat),
                None => scheme + "://"@ + h,
            },
        },
    }
}

/// The parts of a URL as plain values.
pub open spec fn parts_view(p: std::result::Result<UrlParts, String>) -> std::result::Result<
    (Seq<char>, Option<Seq<char>>, Option<u16>),
    Seq<char>,
> {
    match p {
        Ok(u) => Ok((u.scheme@, opt_text(u.host), u.port)),
        Err(e) => Err(e@),
    }
}

/// The origin of a parsed URL.
pub fn origin_from_parts(parts: std::result::Result<UrlParts, String>) -> (r: Result<String>)
    ensures
        origin_outcome(parts_view(parts), r),
{
    match parts {
        Err(e) => Err(Error::security(concat_str("Invalid URL: ", e.as_str()))),
        Ok(p) => match p.host {
            None => Err(Error::security(str_to_string("No host in URL"))),
            Some(h) => {
                let mut origin = concat_str(p.scheme.as_str(), "://");
                push_str(&mut origin, h.as_str());
                match p.port {
                    Some(n) => {
                        push_str(&mut origin, ":");
                        let digits = decimal_string(n as u128);
                        push_str(&mut origin, digits.as_str());
                    },
                    None => {},
                }
                Ok(origin)
            },
        },
    }
}

/// An origin with the scheme's default port written out dropped: `:443`
/// after `https://`, `:80` after `http://`.
pub open spec fn normalized_origin(o: Seq<char>) -> Seq<char> {
    if has_prefix(o, "https://"@) && has_suffix(o, ":443"@) {
        o.subrange(0, o.len() - 4)
    } else if has_prefix(o, "http://"@) && has_suffix(o, ":80"@) {
        o.subrange(0, o.len() - 3)
    } else {
        o
    }
}

/// The origin without the scheme's default port.
fn normalize_origin(o: &str) -> (r: Vec<char>)
    ensures
        r@ == normalized_origin(o@),
{
    let c = str_chars(o);
    let n = c.len();
    if str_starts_with(o, "https://") && str_ends_with(o, ":443") {
        proof {
            reveal_strlit(":443");
        }
        slice_chars(c.as_slice(), 0, n - 4)
    } else if str_starts_with(o, "http://") && str_ends_with(o, ":80") {
        proof {
            reveal_strlit(":80");
        }
        slice_chars(c.as_slice(), 0, n - 3)
    } else {
        c
    }
}

/// Security utilities
pub struct SecurityUtils;

impl SecurityUtils {
    /// Check if URL is secure
    pub fn is_secure_url(url: &str) -> (r: bool)
        ensures
            r == (has_prefix(url@, "https://"@) || has_prefix(url@, "wss://"@)),
    {
        str_starts_with(url, "https://") || str_starts_with(url, "wss://")
    }

    /// Check if URL is local
    pub fn is_local_url(url: &str) -> (r: bool)
        ensures
            r == (has_prefix(url@, "file://"@) || has_prefix(url@, "data:"@) || has_prefix(url@, "blob:"@)),
    {
        str_starts_with(url, "file://") || str_starts_with(url, "data:") || str_starts_with(url, "blob:")
    }

    /// Extract origin from URL
    pub fn extract_origin(url: &str) -> (r: Result<String>)
        ensures
            origin_outcome(url_components(url@), r),
    {
        let parts = parse_url(url);
        origin_from_parts(parts)
    }

    /// Check if origins are same: equal once a default port written out is dropped.
    pub fn is_same_origin(origin1: &str, origin2: &str) -> (r: bool)
        ensures
            r == (normalized_origin(origin1@) == normalized_origin(origin2@)),
    {
        let a = normalize_origin(origin1);
        let b = normalize_origin(origin2);
        chars_equal(a.as_slice(), b.as_slice())
    }

    /// Check if origins are cross-origin
    pub fn is_cross_origin(origin1: &str, origin2: &str) -> (r: bool)
        ensures
            r == !(normalized_origin(origin1@) == normalized_origin(origin2@)),
    {
        !Self::is_same_origin(origin1, origin2)
    }

    /// Validate CORS preflight request: an `OPTIONS` request that carries
    /// `Origin` and `Access-Control-Request-Method`.
    pub fn validate_preflight_request(request: &CorsRequest) -> (r: Result<bool>)
        ensures
            r matches Ok(b) && b == (request.method@ == "OPTIONS"@ && table_get(request.headers@, "Origin"@) is Some
                && table_get(request.headers@, "Access-Control-Request-Method"@) is Some),
    {
        if !str_equal(request.method.as_str(), "OPTIONS") {
            return Ok(false);
        }
        let has_origin = request.headers.contains_key("Origin");
        let has_access_control_request_method = request.headers.contains_key("Access-Control-Request-Method");
        Ok(has_origin && has_access_control_request_method)
    }

    /// Generate CORS preflight response
    pub fn generate_preflight_response(policy: &CorsPolicy, request: &CorsRequest) -> (r: CorsResponse)
        ensures
            r.allowed,
            r.error is None,
            text_pairs(r.cors_headers@) == preflight_grant(*policy, request.origin@),
            r.headers@.len() == 0,
    {
        let mut response = empty_response(true, None);
        add_preflight_headers(&mut response.cors_headers, policy, &request.origin);
        response
    }
}

} // verus!
