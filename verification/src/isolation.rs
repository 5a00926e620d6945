//! Site isolation for a renderer: the security context that a site's URL
//! earns, the cross-origin and permission checks made against it, the
//! channels opened to other origins, and the log of what was refused.

use vstd::prelude::*;
use crate::error::{Error, Result};
use crate::security::{url_components, parts_view, parse_url, origin_from_parts};
use crate::table::{KeyedTable, Entries, table_get, table_insert, table_keys};
use crate::text::{
    decimal, decimal_string, has_prefix, str_starts_with, str_to_string, concat_str, push_str,
    str_equal, all_digits, lemma_decimal_roundtrip,
};
use crate::time::Timestamp;
use crate::tls::{texts, contains_string, list_contains_string};

verus! {

/// A JSON value, carried through unread.
#[verifier::external_type_specification]
#[verifier::external_body]
pub struct ExJsonValue(serde_json::Value);

/// Site isolation policy
#[derive(Debug, Clone)]
pub enum IsolationPolicy {
    /// No isolation - all sites share the same process
    Shared,
    /// Per-site isolation - each site gets its own process
    PerSite,
    /// Per-origin isolation - each origin gets its own process
    PerOrigin,
    /// Custom isolation based on rules
    Custom(Vec<IsolationRule>),
}

/// Isolation rule for custom policies
#[derive(Debug, Clone)]
pub struct IsolationRule {
    /// URL pattern to match
    pub pattern: String,
    /// Isolation level for this pattern
    pub isolation_level: IsolationLevel,
    /// Whether this rule is enabled
    pub enabled: bool,
}

/// Isolation level for a site
#[derive(Debug, Clone, Copy, PartialEq, Eq, Structural)]
pub enum IsolationLevel {
    /// No isolation
    Unisolated,
    /// Basic isolation (separate process)
    Basic,
    /// Strict isolation (separate process + additional restrictions)
    Strict,
    /// Maximum isolation (separate process + full sandboxing)
    Maximum,
}

/// Security level for a site, from most to least trusted.
#[derive(Debug, Clone, Copy, PartialEq, Eq, Structural)]
pub enum SecurityLevel {
    /// Trusted site (local files, browser UI)
    Trusted,
    /// Secure site (HTTPS)
    Secure,
    /// Insecure site (HTTP)
    Insecure,
    /// Dangerous site (blocked)
    Dangerous,
}

/// Cross-origin restrictions
#[derive(Debug, Clone)]
pub struct CrossOriginRestrictions {
    /// Allow cross-origin requests
    pub allow_cross_origin_requests: bool,
    /// Allow cross-origin embedding
    pub allow_cross_origin_embedding: bool,
    /// Allow cross-origin navigation
    pub allow_cross_origin_navigation: bool,
    /// Allowed origins
    pub allowed_origins: Vec<String>,
    /// Blocked origins
    pub blocked_origins: Vec<String>,
}

/// Site security context
#[derive(Debug, Clone)]
pub struct SiteSecurityContext {
    /// Site URL
    pub url: String,
    /// Site origin
    pub origin: String,
    /// Security level
    pub security_level: SecurityLevel,
    /// Allowed permissions
    pub allowed_permissions: Vec<String>,
    /// Blocked permissions
    pub blocked_permissions: Vec<String>,
    /// Content Security Policy
    pub csp: Option<String>,
    /// Cross-origin restrictions
    pub cross_origin_restrictions: CrossOriginRestrictions,
}

/// Cross-origin communication channel
#[derive(Debug)]
pub struct CrossOriginChannel {
    /// Target origin
    pub target_origin: String,
    /// Channel ID
    pub channel_id: String,
    /// Message queue
    pub message_queue: Vec<serde_json::Value>,
    /// Whether the channel is active
    pub active: bool,
}

/// Violation type
#[derive(Debug, Clone, Copy, PartialEq, Eq, Structural)]
pub enum ViolationType {
    /// Cross-origin violation
    CrossOrigin,
    /// Content Security Policy violation
    CspViolation,
    /// Permission violation
    PermissionViolation,
    /// Sandbox violation
    SandboxViolation,
    /// Resource access violation
    ResourceAccessViolation,
}

/// Security violation
#[derive(Debug)]
pub struct SecurityViolation {
    /// Violation type
    pub violation_type: ViolationType,
    /// Violation details
    pub details: String,
    /// When it was recorded
    pub timestamp: Timestamp,
    /// Whether the violation was blocked
    pub blocked: bool,
}

/// Site isolation manager
pub struct SiteIsolationManager {
    site_url: String,
    security_context: SiteSecurityContext,
    isolation_policy: IsolationPolicy,
    site_settings: KeyedTable<serde_json::Value>,
    cross_origin_channels: KeyedTable<CrossOriginChannel>,
    security_violations: Vec<SecurityViolation>,
}

/// The security level that a URL earns from its scheme: `file://` is
/// trusted, `https://` secure, `http://` insecure, anything else dangerous.
pub open spec fn level_of_url(url: Seq<char>) -> SecurityLevel {
    if has_prefix(url, "file://"@) {
        SecurityLevel::Trusted
    } else if has_prefix(url, "https://"@) {
        SecurityLevel::Secure
    } else if has_prefix(url, "http://"@) {
        SecurityLevel::Insecure
    } else {
        SecurityLevel::Dangerous
    }
}

/// The place of a level in the order from trusted to dangerous.
pub open spec fn level_rank(l: SecurityLevel) -> nat {
    match l {
        SecurityLevel::Trusted => 0,
        SecurityLevel::Secure => 1,
        SecurityLevel::Insecure => 2,
        SecurityLevel::Dangerous => 3,
    }
}

/// The permissions that a level grants.
pub open spec fn granted_permissions(l: SecurityLevel) -> Seq<Seq<char>> {
    match l {
        SecurityLevel::Trusted => seq!["fullscreen"@, "notifications"@, "geolocation"@],
        SecurityLevel::Secure => seq!["notifications"@, "geolocation"@],
        _ => seq![],
    }
}

/// The permissions that a level denies.
pub open spec fn denied_permissions(l: SecurityLevel) -> Seq<Seq<char>> {
    match l {
        SecurityLevel::Trusted => seq![],
        SecurityLevel::Secure => seq!["fullscreen"@],
        SecurityLevel::Insecure => seq!["fullscreen"@, "notifications"@, "geolocation"@],
        SecurityLevel::Dangerous => seq![
            "fullscreen"@,
            "notifications"@,
            "geolocation"@,
            "camera"@,
            "microphone"@,
        ],
    }
}

/// The default content security policy of a level.
pub open spec fn csp_for(l: SecurityLevel) -> Seq<char> {
    match l {
        SecurityLevel::Trusted => "default-src 'self' 'unsafe-inline' 'unsafe-eval' data: blob:;"@,
        SecurityLevel::Secure =>
            "default-src 'self'; script-src 'self' 'unsafe-inline'; style-src 'self' 'unsafe-inline';"@,
        SecurityLevel::Insecure => "default-src 'self'; script-src 'self'; style-src 'self';"@,
        SecurityLevel::Dangerous => "default-src 'none';"@,
    }
}

/// The origin of parsed URL parts: `scheme://host`, with `:port` where a
/// port is given; none where the URL did not parse or has no host.
pub open spec fn origin_text(
    parts: std::result::Result<(Seq<char>, Option<Seq<char>>, Option<u16>), Seq<char>>,
) -> Option<Seq<char>> {
    match parts {
        Ok((scheme, Some(h), port)) => Some(
            match port {
                Some(n) => scheme + "://"@ + h + ":"@ + decimal(n as nat),
                None => scheme + "://"@ + h,
            },
        ),
        _ => None,
    }
}

/// The origin of a URL's text, as the URL parser reads it.
pub open spec fn url_origin(url: Seq<char>) -> Option<Seq<char>> {
    origin_text(url_components(url))
}

/// The message of the error for a URL without an origin.
pub open spec fn no_origin_message(url: Seq<char>) -> Seq<char> {
    "Could not extract origin from URL: "@ + url
}

/// The restrictions a new context starts with: requests, embedding and
/// navigation across origins all allowed just for a trusted site, and no
/// origin listed.
pub open spec fn fresh_restrictions(r: CrossOriginRestrictions, trusted: bool) -> bool {
    &&& r.allow_cross_origin_requests == trusted
    &&& r.allow_cross_origin_embedding == trusted
    &&& r.allow_cross_origin_navigation == trusted
    &&& r.allowed_origins@.len() == 0
    &&& r.blocked_origins@.len() == 0
}

/// `c` is the context that a site at `url` with origin `origin` starts with.
pub open spec fn fresh_context(c: SiteSecurityContext, url: Seq<char>, origin: Seq<char>) -> bool {
    &&& c.url@ == url
    &&& c.origin@ == origin
    &&& c.security_level == level_of_url(url)
    &&& texts(c.allowed_permissions@) == granted_permissions(c.security_level)
    &&& texts(c.blocked_permissions@) == denied_permissions(c.security_level)
    &&& c.csp is None
    &&& fresh_restrictions(c.cross_origin_restrictions, c.security_level == SecurityLevel::Trusted)
}

/// `new` is `old` once initialised: the level's default policy set, and
/// cross-origin requests allowed for a secure site and refused for an
/// insecure or dangerous one, embedding refused for all three; a trusted
/// site's restrictions stay as they were.
pub open spec fn initialized_context(new: SiteSecurityContext, old: SiteSecurityContext) -> bool {
    let l = old.security_level;
    let (o, n) = (old.cross_origin_restrictions, new.cross_origin_restrictions);
    &&& new.url == old.url
    &&& new.origin == old.origin
    &&& new.security_level == l
    &&& new.allowed_permissions == old.allowed_permissions
    &&& new.blocked_permissions == old.blocked_permissions
    &&& new.csp matches Some(p) && p@ == csp_for(l)
    &&& n.allow_cross_origin_navigation == o.allow_cross_origin_navigation
    &&& n.allowed_origins == o.allowed_origins
    &&& n.blocked_origins == o.blocked_origins
    &&& if l == SecurityLevel::Trusted {
        n.allow_cross_origin_requests == o.allow_cross_origin_requests
            && n.allow_cross_origin_embedding == o.allow_cross_origin_embedding
    } else {
        n.allow_cross_origin_requests == (l == SecurityLevel::Secure) && !n.allow_cross_origin_embedding
    }
}

/// A request to `target` passes the restrictions: requests are allowed, the
/// target is not blocked, and it is listed where any origin is listed.
pub open spec fn cross_origin_allowed(r: CrossOriginRestrictions, target: Seq<char>) -> bool {
    &&& r.allow_cross_origin_requests
    &&& !contains_string(r.blocked_origins@, target)
    &&& (r.allowed_origins@.len() == 0 || contains_string(r.allowed_origins@, target))
}

/// The permission is granted and not denied.
pub open spec fn permission_allowed(c: SiteSecurityContext, permission: Seq<char>) -> bool {
    contains_string(c.allowed_permissions@, permission) && !contains_string(
        c.blocked_permissions@,
        permission,
    )
}

/// `new` is `old` with one violation appended, of the given kind, details
/// and outcome.
pub open spec fn violation_recorded(
    old: Seq<SecurityViolation>,
    new: Seq<SecurityViolation>,
    kind: ViolationType,
    details: Seq<char>,
    blocked: bool,
) -> bool {
    &&& new.len() == old.len() + 1
    &&& new.drop_last() == old
    &&& new.last().violation_type == kind
    &&& new.last().details@ == details
    &&& new.last().blocked == blocked
}

/// The details recorded for a refused cross-origin request.
pub open spec fn cross_origin_details(request_type: Seq<char>, target: Seq<char>) -> Seq<char> {
    "Cross-origin "@ + request_type + " request to "@ + target + " blocked"@
}

/// The details recorded for a denied permission.
pub open spec fn permission_details(permission: Seq<char>) -> Seq<char> {
    "Permission '"@ + permission + "' denied"@
}

/// A URL with a protocol that runs or embeds content itself.
pub open spec fn dangerous_protocol(url: Seq<char>) -> bool {
    has_prefix(url, "javascript:"@) || has_prefix(url, "data:"@)
}

/// A channel name: `channel_` followed by decimal digits.
pub open spec fn channel_name(id: Seq<char>) -> bool {
    &&& id.len() > 8
    &&& has_prefix(id, "channel_"@)
    &&& all_digits(id.subrange(8, id.len() as int))
}

/// `new` is `old` with a new, active, empty channel to `target` under `id`.
pub open spec fn channel_opened(
    old: Entries<CrossOriginChannel>,
    new: Entries<CrossOriginChannel>,
    id: Seq<char>,
    target: Seq<char>,
) -> bool {
    match table_get(new, id) {
        Some(c) => new == table_insert(old, id, c) && c.target_origin@ == target && c.channel_id@ == id
            && c.message_queue@.len() == 0 && c.active,
        None => false,
    }
}

/// `new` is `old` with `message` queued on the channel under `id`, which
/// keeps its target, name and state.
pub open spec fn message_queued(
    old: Entries<CrossOriginChannel>,
    new: Entries<CrossOriginChannel>,
    id: Seq<char>,
    message: serde_json::Value,
) -> bool {
    match (table_get(old, id), table_get(new, id)) {
        (Some(c), Some(d)) => new == table_insert(old, id, d) && d.target_origin == c.target_origin
            && d.channel_id == c.channel_id && d.active == c.active && d.message_queue@
            == c.message_queue@.push(message),
        _ => false,
    }
}

/// Extract origin from URL
pub fn extract_origin(url: &str) -> (r: Result<String>)
    ensures
        match url_origin(url@) {
            Some(o) => r matches Ok(s) && s@ == o,
            None => r matches Err(Error::Config(m)) && m@ == no_origin_message(url@),
        },
{
    let parts = parse_url(url);
    let ghost p = parts_view(parts);
    assert(p == url_components(url@));
    match origin_from_parts(parts) {
        Ok(o) => Ok(o),
        Err(_) => Err(Error::config(concat_str("Could not extract origin from URL: ", url))),
    }
}

/// The security level of a URL.
fn level_for(url: &str) -> (r: SecurityLevel)
    ensures
        r == level_of_url(url@),
{
    if str_starts_with(url, "file://") {
        SecurityLevel::Trusted
    } else if str_starts_with(url, "https://") {
        SecurityLevel::Secure
    } else if str_starts_with(url, "http://") {
        SecurityLevel::Insecure
    } else {
        SecurityLevel::Dangerous
    }
}

/// The rank of a level, as a number.
fn rank(l: SecurityLevel) -> (r: u8)
    ensures
        r == level_rank(l),
{
    match l {
        SecurityLevel::Trusted => 0,
        SecurityLevel::Secure => 1,
        SecurityLevel::Insecure => 2,
        SecurityLevel::Dangerous => 3,
    }
}

/// A list of strings made from string slices.
fn string_list(items: &[&str]) -> (r: Vec<String>)
    ensures
        texts(r@) == items@.map_values(|s: &str| s@),
{
    let mut out: Vec<String> = Vec::new();
    let mut i: usize = 0;
    while i < items.len()
        invariant
            i <= items@.len(),
            texts(out@) == items@.take(i as int).map_values(|s: &str| s@),
        decreases items@.len() - i,
    {
        let ghost before = out@;
        out.push(str_to_string(items[i]));
        assert(texts(out@) =~= texts(before).push(items@[i as int]@));
        assert(items@.take(i + 1) =~= items@.take(i as int).push(items@[i as int]));
        i = i + 1;
    }
    assert(items@.take(items@.len() as int) =~= items@);
    out
}

/// The permissions granted and denied at a level.
fn permissions_for(l: SecurityLevel) -> (r: (Vec<String>, Vec<String>))
    ensures
        texts(r.0@) == granted_permissions(l),
        texts(r.1@) == denied_permissions(l),
{
    match l {
        SecurityLevel::Trusted => {
            let a = string_list(&["fullscreen", "notifications", "geolocation"]);
            let b = string_list(&[]);
            (a, b)
        },
        SecurityLevel::Secure => {
            let a = string_list(&["notifications", "geolocation"]);
            let b = string_list(&["fullscreen"]);
            (a, b)
        },
        SecurityLevel::Insecure => {
            let a = string_list(&[]);
            let b = string_list(&["fullscreen", "notifications", "geolocation"]);
            (a, b)
        },
        SecurityLevel::Dangerous => {
            let a = string_list(&[]);
            let b = string_list(&["fullscreen", "notifications", "geolocation", "camera", "microphone"]);
            (a, b)
        },
    }
}

impl SiteIsolationManager {
    /// The URL of the site.
    pub closed spec fn url(&self) -> Seq<char> {
        self.site_url@
    }

    /// The site's security context.
    pub closed spec fn context(&self) -> SiteSecurityContext {
        self.security_context
    }

    /// The isolation policy.
    pub closed spec fn policy(&self) -> IsolationPolicy {
        self.isolation_policy
    }

    /// The site-specific settings.
    pub closed spec fn settings(&self) -> Entries<serde_json::Value> {
        self.site_settings@
    }

    /// The cross-origin channels, by name.
    pub closed spec fn channels(&self) -> Entries<CrossOriginChannel> {
        self.cross_origin_channels@
    }

    /// The violations recorded so far, oldest first.
    pub closed spec fn violations(&self) -> Seq<SecurityViolation> {
        self.security_violations@
    }

    /// Create security context for a URL
    pub fn create_security_context(site_url: &str) -> (r: Result<SiteSecurityContext>)
        ensures
            match url_origin(site_url@) {
                Some(o) => r matches Ok(c) && fresh_context(c, site_url@, o),
                None => r matches Err(Error::Config(m)) && m@ == no_origin_message(site_url@),
            },
    {
        let security_level = level_for(site_url);
        let origin = extract_origin(site_url)?;
        let (allowed_permissions, blocked_permissions) = permissions_for(security_level);
        let trusted = security_level == SecurityLevel::Trusted;
        Ok(
            SiteSecurityContext {
                url: str_to_string(site_url),
                origin,
                security_level,
                allowed_permissions,
                blocked_permissions,
                csp: None,
                cross_origin_restrictions: CrossOriginRestrictions {
                    allow_cross_origin_requests: trusted,
                    allow_cross_origin_embedding: trusted,
                    allow_cross_origin_navigation: trusted,
                    allowed_origins: Vec::new(),
                    blocked_origins: Vec::new(),
                },
            },
        )
    }

    /// Create a new site isolation manager: the site's fresh context under
    /// per-site isolation, with no settings, channels or violations.
    pub fn new(site_url: &str) -> (r: Result<Self>)
        ensures
            match url_origin(site_url@) {
                Some(o) => r matches Ok(m) && m.url() == site_url@ && fresh_context(m.context(), site_url@, o)
                    && m.policy() is PerSite && m.settings().len() == 0 && m.channels().len() == 0
                    && m.violations().len() == 0,
                None => r matches Err(Error::Config(e)) && e@ == no_origin_message(site_url@),
            },
    {
        let security_context = Self::create_security_context(site_url)?;
        Ok(
            SiteIsolationManager {
                site_url: str_to_string(site_url),
                security_context,
                isolation_policy: IsolationPolicy::PerSite,
                site_settings: KeyedTable::new(),
                cross_origin_channels: KeyedTable::new(),
                security_violations: Vec::new(),
            },
        )
    }

    /// Get the current site URL
    pub fn site_url(&self) -> (r: &str)
        ensures
            r@ == self.url(),
    {
        self.site_url.as_str()
    }

    /// Get the security context
    pub fn security_context(&self) -> (r: &SiteSecurityContext)
        ensures
            *r == self.context(),
    {
        &self.security_context
    }

    /// Get security violations
    pub fn get_security_violations(&self) -> (r: &[SecurityViolation])
        ensures
            r@ == self.violations(),
    {
        self.security_violations.as_slice()
    }

    /// Record a security violation, stamped with the current time.
    fn record_violation(&mut self, violation_type: ViolationType, details: String, blocked: bool)
        ensures
            violation_recorded(old(self).violations(), final(self).violations(), violation_type, details@, blocked),
            final(self).url() == old(self).url(),
            final(self).context() == old(self).context(),
            final(self).policy() == old(self).policy(),
            final(self).settings() == old(self).settings(),
            final(self).channels() == old(self).channels(),
    {
        let violation = SecurityViolation { violation_type, details, timestamp: Timestamp::now(), blocked };
        self.security_violations.push(violation);
        assert(self.security_violations@.drop_last() =~= old(self).security_violations@);
    }

    /// Check if a cross-origin request is allowed; a refused one is
    /// recorded as a blocked cross-origin violation.
    pub fn check_cross_origin_request(&mut self, target_origin: &str, request_type: &str) -> (r: Result<bool>)
        ensures
            r matches Ok(b) && b == cross_origin_allowed(old(self).context().cross_origin_restrictions, target_origin@),
            cross_origin_allowed(old(self).context().cross_origin_restrictions, target_origin@)
                ==> final(self).violations() == old(self).violations(),
            !cross_origin_allowed(old(self).context().cross_origin_restrictions, target_origin@) ==> violation_recorded(
                old(self).violations(),
                final(self).violations(),
                ViolationType::CrossOrigin,
                cross_origin_details(request_type@, target_origin@),
                true,
            ),
            final(self).url() == old(self).url(),
            final(self).context() == old(self).context(),
            final(self).policy() == old(self).policy(),
            final(self).settings() == old(self).settings(),
            final(self).channels() == old(self).channels(),
    {
        let restrictions = &self.security_context.cross_origin_restrictions;
        let allowed = restrictions.allow_cross_origin_requests && !list_contains_string(
            &restrictions.blocked_origins,
            target_origin,
        ) && (restrictions.allowed_origins.len() == 0 || list_contains_string(
            &restrictions.allowed_origins,
            target_origin,
        ));
        if !allowed {
            let mut details = concat_str("Cross-origin ", request_type);
            push_str(&mut details, " request to ");
            push_str(&mut details, target_origin);
            push_str(&mut details, " blocked");
            self.record_violation(ViolationType::CrossOrigin, details, true);
        }
        Ok(allowed)
    }

    /// Check if a permission is allowed; a denied one is recorded as a
    /// blocked permission violation.
    pub fn check_permission(&mut self, permission: &str) -> (r: Result<bool>)
        ensures
            r matches Ok(b) && b == permission_allowed(old(self).context(), permission@),
            permission_allowed(old(self).context(), permission@) ==> final(self).violations() == old(self).violations(),
            !permission_allowed(old(self).context(), permission@) ==> violation_recorded(
                old(self).violations(),
                final(self).violations(),
                ViolationType::PermissionViolation,
                permission_details(permission@),
                true,
            ),
            final(self).url() == old(self).url(),
            final(self).context() == old(self).context(),
            final(self).policy() == old(self).policy(),
            final(self).settings() == old(self).settings(),
            final(self).channels() == old(self).channels(),
    {
        let allowed = list_contains_string(&self.security_context.allowed_permissions, permission)
            && !list_contains_string(&self.security_context.blocked_permissions, permission);
        if !allowed {
            let mut details = concat_str("Permission '", permission);
            push_str(&mut details, "' denied");
            self.record_violation(ViolationType::PermissionViolation, details, true);
        }
        Ok(allowed)
    }

    /// Create a cross-origin communication channel, named after the current
    /// time. A target that a cross-origin request may not reach is refused,
    /// and the refusal recorded.
    pub fn create_cross_origin_channel(&mut self, target_origin: &str) -> (r: Result<String>)
        ensures
            cross_origin_allowed(old(self).context().cross_origin_restrictions, target_origin@) ==> {
                &&& r matches Ok(id) && channel_name(id@) && channel_opened(
                    old(self).channels(),
                    final(self).channels(),
                    id@,
                    target_origin@,
                )
                &&& final(self).violations() == old(self).violations()
            },
            !cross_origin_allowed(old(self).context().cross_origin_restrictions, target_origin@) ==> {
                &&& r matches Err(Error::Security(m)) && m@ == "Cross-origin communication not allowed"@
                &&& final(self).channels() == old(self).channels()
                &&& violation_recorded(
                    old(self).violations(),
                    final(self).violations(),
                    ViolationType::CrossOrigin,
                    cross_origin_details("communication"@, target_origin@),
                    true,
                )
            },
            final(self).url() == old(self).url(),
            final(self).context() == old(self).context(),
            final(self).policy() == old(self).policy(),
            final(self).settings() == old(self).settings(),
    {
        if !self.check_cross_origin_request(target_origin, "communication")? {
            return Err(Error::security(str_to_string("Cross-origin communication not allowed")));
        }
        let nanos = Timestamp::now().as_nanos();
        let digits = decimal_string(nanos);
        let channel_id = concat_str("channel_", digits.as_str());
        proof {
            lemma_decimal_roundtrip(nanos as nat);
            reveal_strlit("channel_");
            assert(channel_id@.subrange(8, channel_id@.len() as int) =~= digits@);
            assert(channel_id@.subrange(0, 8) =~= "channel_"@);
        }
        let channel = CrossOriginChannel {
            target_origin: str_to_string(target_origin),
            channel_id: str_to_string(channel_id.as_str()),
            message_queue: Vec::new(),
            active: true,
        };
        let key = str_to_string(channel_id.as_str());
        self.cross_origin_channels.insert(key, channel);
        proof {
            crate::table::lemma_get_after_insert(old(self).cross_origin_channels@, channel_id@, channel);
        }
        Ok(channel_id)
    }

    /// Send a message through a cross-origin channel: queued on an active
    /// channel; an error for a channel that is missing or inactive.
    pub fn send_cross_origin_message(&mut self, channel_id: &str, message: serde_json::Value) -> (r: Result<()>)
        ensures
            match table_get(old(self).channels(), channel_id@) {
                None => r matches Err(Error::Security(m)) && m@ == "Cross-origin channel not found"@
                    && final(self).channels() == old(self).channels(),
                Some(c) => if c.active {
                    r is Ok && message_queued(old(self).channels(), final(self).channels(), channel_id@, message)
                } else {
                    r matches Err(Error::Security(m)) && m@ == "Cross-origin channel is not active"@
                        && final(self).channels() == old(self).channels()
                },
            },
            final(self).url() == old(self).url(),
            final(self).context() == old(self).context(),
            final(self).policy() == old(self).policy(),
            final(self).settings() == old(self).settings(),
            final(self).violations() == old(self).violations(),
    {
        let i = self.cross_origin_channels.position(channel_id);
        if i >= self.cross_origin_channels.len() {
            return Err(Error::security(str_to_string("Cross-origin channel not found")));
        }
        proof {
            crate::table::lemma_index_of_key_bounds(self.cross_origin_channels@, channel_id@);
        }
        let (_, c) = self.cross_origin_channels.entry_at(i);
        if !c.active {
            return Err(Error::security(str_to_string("Cross-origin channel is not active")));
        }
        let ghost t = self.cross_origin_channels@;
        let (key, mut channel) = self.cross_origin_channels.remove_at(i);
        let ghost before = channel;
        channel.message_queue.push(message);
        proof {
            assert(table_keys(t.remove(i as int)) =~= table_keys(t).remove(i as int));
            assert forall|j: int| 0 <= j < t.len() - 1 implies #[trigger] table_keys(t.remove(i as int))[j] != key@ by {
                let j2 = if j < i { j } else { j + 1 };
                assert(t.remove(i as int)[j] == t[j2]);
            }
        }
        let ghost ch = channel;
        self.cross_origin_channels.insert_at(i, key, channel);
        proof {
            assert(t.remove(i as int).insert(i as int, (channel_id@, ch)) =~= t.update(i as int, (channel_id@, ch)));
            crate::table::lemma_get_after_insert(t, channel_id@, ch);
        }
        Ok(())
    }

    /// Load a URL in the site isolation context. The URL must have the
    /// site's origin; a dangerous protocol is recorded; the URL becomes the
    /// site's, and its fresh context replaces the current one unless that
    /// would make the site more trusted than it is.
    pub fn load_url(&mut self, url: &str) -> (r: Result<()>)
        ensures
            match url_origin(url@) {
                None => r matches Err(Error::Config(m)) && m@ == no_origin_message(url@) && *final(self)
                    == *old(self),
                Some(o) => if o != old(self).context().origin@ {
                    r matches Err(Error::Security(m)) && m@ == "URL origin "@ + o + " does not match site origin "@
                        + old(self).context().origin@ && *final(self) == *old(self)
                } else {
                    &&& r is Ok
                    &&& final(self).url() == url@
                    &&& if dangerous_protocol(url@) {
                        violation_recorded(
                            old(self).violations(),
                            final(self).violations(),
                            ViolationType::ResourceAccessViolation,
                            "Dangerous protocol in URL: "@ + url@,
                            true,
                        )
                    } else {
                        final(self).violations() == old(self).violations()
                    }
                    &&& if level_rank(level_of_url(url@)) >= level_rank(old(self).context().security_level) {
                        fresh_context(final(self).context(), url@, o)
                    } else {
                        final(self).context() == old(self).context()
                    }
                    &&& final(self).policy() == old(self).policy()
                    &&& final(self).settings() == old(self).settings()
                    &&& final(self).channels() == old(self).channels()
                },
            },
            level_rank(final(self).context().security_level) >= level_rank(old(self).context().security_level),
    {
        self.validate_url(url)?;
        self.check_security_violations(url);
        self.site_url = str_to_string(url);
        self.update_security_context(url)?;
        Ok(())
    }

    /// Validate URL against security context: it must have the site's origin.
    fn validate_url(&self, url: &str) -> (r: Result<()>)
        ensures
            match url_origin(url@) {
                None => r matches Err(Error::Config(m)) && m@ == no_origin_message(url@),
                Some(o) => if o != self.context().origin@ {
                    r matches Err(Error::Security(m)) && m@ == "URL origin "@ + o + " does not match site origin "@
                        + self.context().origin@
                } else {
                    r is Ok
                },
            },
    {
        let url_origin = extract_origin(url)?;
        if !str_equal(url_origin.as_str(), self.security_context.origin.as_str()) {
            let mut m = concat_str("URL origin ", url_origin.as_str());
            push_str(&mut m, " does not match site origin ");
            push_str(&mut m, self.security_context.origin.as_str());
            return Err(Error::security(m));
        }
        Ok(())
    }

    /// Check for security violations: a dangerous protocol is recorded.
    fn check_security_violations(&mut self, url: &str)
        ensures
            dangerous_protocol(url@) ==> violation_recorded(
                old(self).violations(),
                final(self).violations(),
                ViolationType::ResourceAccessViolation,
                "Dangerous protocol in URL: "@ + url@,
                true,
            ),
            !dangerous_protocol(url@) ==> final(self).violations() == old(self).violations(),
            final(self).url() == old(self).url(),
            final(self).context() == old(self).context(),
            final(self).policy() == old(self).policy(),
            final(self).settings() == old(self).settings(),
            final(self).channels() == old(self).channels(),
    {
        if str_starts_with(url, "javascript:") || str_starts_with(url, "data:") {
            let details = concat_str("Dangerous protocol in URL: ", url);
            self.record_violation(ViolationType::ResourceAccessViolation, details, true);
        }
    }

    /// Update security context: the URL's fresh context replaces the
    /// current one when its level is the same or further from trusted.
    fn update_security_context(&mut self, url: &str) -> (r: Result<()>)
        ensures
            match url_origin(url@) {
                None => r matches Err(Error::Config(m)) && m@ == no_origin_message(url@) && final(self).context()
                    == old(self).context(),
                Some(o) => r is Ok && if level_rank(level_of_url(url@)) >= level_rank(
                    old(self).context().security_level,
                ) {
                    fresh_context(final(self).context(), url@, o)
                } else {
                    final(self).context() == old(self).context()
                },
            },
            level_rank(final(self).context().security_level) >= level_rank(old(self).context().security_level),
            final(self).url() == old(self).url(),
            final(self).policy() == old(self).policy(),
            final(self).settings() == old(self).settings(),
            final(self).channels() == old(self).channels(),
            final(self).violations() == old(self).violations(),
    {
        let new_context = Self::create_security_context(url)?;
        if rank(new_context.security_level) >= rank(self.security_context.security_level) {
            self.security_context = new_context;
        }
        Ok(())
    }

    /// Initialize the site isolation manager: applies the level's
    /// cross-origin restrictions and sets its default content security policy.
    pub fn initialize(&mut self) -> (r: Result<()>)
        ensures
            r is Ok,
            initialized_context(final(self).context(), old(self).context()),
            final(self).url() == old(self).url(),
            final(self).policy() == old(self).policy(),
            final(self).settings() == old(self).settings(),
            final(self).channels() == old(self).channels(),
            final(self).violations() == old(self).violations(),
    {
        self.apply_security_policies()?;
        self.setup_cross_origin_restrictions();
        self.initialize_csp();
        Ok(())
    }

    /// Apply security policies: the content security policy, where one is
    /// set, and the cross-origin restrictions, neither of which changes any state.
    fn apply_security_policies(&self) -> (r: Result<()>)
        ensures
            r is Ok,
    {
        match &self.security_context.csp {
            Some(csp) => Self::apply_csp(csp.as_str())?,
            None => {},
        }
        Self::apply_cross_origin_restrictions()?;
        Ok(())
    }

    /// Apply a content security policy; nothing is enforced from it yet.
    fn apply_csp(_csp: &str) -> (r: Result<()>)
        ensures
            r is Ok,
    {
        Ok(())
    }

    /// Apply the cross-origin restrictions; nothing is enforced from them yet.
    fn apply_cross_origin_restrictions() -> (r: Result<()>)
        ensures
            r is Ok,
    {
        Ok(())
    }

    /// Set up cross-origin restrictions from the security level.
    fn setup_cross_origin_restrictions(&mut self)
        ensures
            ({
                let (o, n) = (old(self).context().cross_origin_restrictions, final(self).context().cross_origin_restrictions);
                let l = old(self).context().security_level;
                &&& n.allow_cross_origin_navigation == o.allow_cross_origin_navigation
                &&& n.allowed_origins == o.allowed_origins
                &&& n.blocked_origins == o.blocked_origins
                &&& if l == SecurityLevel::Trusted {
                    n.allow_cross_origin_requests == o.allow_cross_origin_requests
                        && n.allow_cross_origin_embedding == o.allow_cross_origin_embedding
                } else {
                    n.allow_cross_origin_requests == (l == SecurityLevel::Secure) && !n.allow_cross_origin_embedding
                }
            }),
            final(self).context().url == old(self).context().url,
            final(self).context().origin == old(self).context().origin,
            final(self).context().security_level == old(self).context().security_level,
            final(self).context().allowed_permissions == old(self).context().allowed_permissions,
            final(self).context().blocked_permissions == old(self).context().blocked_permissions,
            final(self).context().csp == old(self).context().csp,
            final(self).url() == old(self).url(),
            final(self).policy() == old(self).policy(),
            final(self).settings() == old(self).settings(),
            final(self).channels() == old(self).channels(),
            final(self).violations() == old(self).violations(),
    {
        match self.security_context.security_level {
            SecurityLevel::Trusted => {},
            SecurityLevel::Secure => {
                self.security_context.cross_origin_restrictions.allow_cross_origin_requests = true;
                self.security_context.cross_origin_restrictions.allow_cross_origin_embedding = false;
            },
            SecurityLevel::Insecure => {
                self.security_context.cross_origin_restrictions.allow_cross_origin_requests = false;
                self.security_context.cross_origin_restrictions.allow_cross_origin_embedding = false;
            },
            SecurityLevel::Dangerous => {
                self.security_context.cross_origin_restrictions.allow_cross_origin_requests = false;
                self.security_context.cross_origin_restrictions.allow_cross_origin_embedding = false;
            },
        }
    }

    /// Initialize content security policy: the level's default.
    fn initialize_csp(&mut self)
        ensures
            final(self).context().csp matches Some(p) && p@ == csp_for(old(self).context().security_level),
            final(self).context().url == old(self).context().url,
            final(self).context().origin == old(self).context().origin,
            final(self).context().security_level == old(self).context().security_level,
            final(self).context().allowed_permissions == old(self).context().allowed_permissions,
            final(self).context().blocked_permissions == old(self).context().blocked_permissions,
            final(self).context().cross_origin_restrictions == old(self).context().cross_origin_restrictions,
            final(self).url() == old(self).url(),
            final(self).policy() == old(self).policy(),
            final(self).settings() == old(self).settings(),
            final(self).channels() == old(self).channels(),
            final(self).violations() == old(self).violations(),
    {
        let csp = match self.security_context.security_level {
            SecurityLevel::Trusted => "default-src 'self' 'unsafe-inline' 'unsafe-eval' data: blob:;",
            SecurityLevel::Secure =>
                "default-src 'self'; script-src 'self' 'unsafe-inline'; style-src 'self' 'unsafe-inline';",
            SecurityLevel::Insecure => "default-src 'self'; script-src 'self'; style-src 'self';",
            SecurityLevel::Dangerous => "default-src 'none';",
        };
        self.security_context.csp = Some(str_to_string(csp));
    }
}

} // verus!
