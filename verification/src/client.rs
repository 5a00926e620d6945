//! The decisions an HTTP client takes around its connections: where a URI
//! points, what a request carries by default, and which redirect to follow.

use vstd::prelude::*;
use crate::error::{Error, Result};
use crate::text::{str_chars, str_to_string, string_from_chars, has_prefix, first_index_of, find_char, slice_chars,
    chars_start_with, parse_unsigned, parse_unsigned_chars, concat_str};
use crate::headers::{HttpHeaders, HeaderList, lookup, set_field, lemma_get_after_set, lemma_get_other_after_set};
use crate::http::{HttpRequest, HttpResponse, is_redirection_status};
use crate::time::Duration;

verus! {

/// Connection pool statistics
#[derive(Debug, Clone, Copy, PartialEq, Eq, Structural)]
pub struct ConnectionPoolStats {
    /// Total connections created
    pub total_connections: usize,
    /// Active connections
    pub active_connections: usize,
    /// Idle connections
    pub idle_connections: usize,
    /// Average connection creation time
    pub avg_creation_time: Duration,
    /// Connection reuse count
    pub reuse_count: usize,
}

impl ConnectionPoolStats {
    /// A pooled connection was handed out again: one more reuse and one
    /// more active connection.
    pub fn record_reuse(&mut self)
        requires
            old(self).reuse_count < usize::MAX,
            old(self).active_connections < usize::MAX,
        ensures
            *final(self) == (ConnectionPoolStats {
                reuse_count: (old(self).reuse_count + 1) as usize,
                active_connections: (old(self).active_connections + 1) as usize,
                ..*old(self)
            }),
    {
        self.reuse_count = self.reuse_count + 1;
        self.active_connections = self.active_connections + 1;
    }

    /// A new connection was made in `creation_time`: one more connection in
    /// all and one more active; the average creation time becomes the mean
    /// of the old average and this time.
    pub fn record_new_connection(&mut self, creation_time: Duration)
        requires
            old(self).total_connections < usize::MAX,
            old(self).active_connections < usize::MAX,
            old(self).avg_creation_time@ + creation_time@ <= (u64::MAX as nat) * 1_000_000_000 + 999_999_999,
        ensures
            final(self).total_connections == old(self).total_connections + 1,
            final(self).active_connections == old(self).active_connections + 1,
            final(self).avg_creation_time@ == (old(self).avg_creation_time@ + creation_time@) / 2,
            final(self).idle_connections == old(self).idle_connections,
            final(self).reuse_count == old(self).reuse_count,
    {
        self.total_connections = self.total_connections + 1;
        self.active_connections = self.active_connections + 1;
        self.avg_creation_time = self.avg_creation_time.plus(creation_time).half();
    }

    /// A connection comes back while its host holds `idle_for_host` idle
    /// ones: it is kept, as one fewer active and one more idle connection,
    /// only while the host holds fewer than `max_per_host`. Tells whether it
    /// is kept.
    pub fn record_return(&mut self, idle_for_host: usize, max_per_host: usize) -> (r: bool)
        requires
            old(self).idle_connections < usize::MAX,
        ensures
            r == (idle_for_host < max_per_host),
            r ==> *final(self) == (ConnectionPoolStats {
                active_connections: if old(self).active_connections > 0 {
                    (old(self).active_connections - 1) as usize
                } else {
                    0
                },
                idle_connections: (old(self).idle_connections + 1) as usize,
                ..*old(self)
            }),
            !r ==> *final(self) == *old(self),
    {
        if idle_for_host < max_per_host {
            self.active_connections = self.active_connections.saturating_sub(1);
            self.idle_connections = self.idle_connections + 1;
            true
        } else {
            false
        }
    }
}

/// The host and port a URI names: after `http://` (port 80 by default),
/// `https://` (port 443) or no scheme (port 80), the text up to the first
/// colon is the host and the rest a decimal port; without a colon the whole
/// remainder is the host.
pub open spec fn uri_host_port(uri: Seq<char>) -> Option<(Seq<char>, u16)> {
    let (rest, default_port) = if has_prefix(uri, "http://"@) {
        (uri.subrange(7, uri.len() as int), 80u16)
    } else if has_prefix(uri, "https://"@) {
        (uri.subrange(8, uri.len() as int), 443u16)
    } else {
        (uri, 80u16)
    };
    match first_index_of(rest, ':') {
        Some(c) => match parse_unsigned(rest.subrange(c + 1, rest.len() as int), 65535) {
            Some(p) => Some((rest.subrange(0, c), p as u16)),
            None => None,
        },
        None => Some((rest, default_port)),
    }
}

/// Where the digits of a port's text start: after a leading `+`, if any.
pub open spec fn digits_start(s: Seq<char>) -> int {
    if s.len() > 0 && s[0] == '+' {
        1
    } else {
        0
    }
}

/// Why a port's text does not parse, in the words of the integer parser:
/// it is empty, it holds no digit or a character that is no digit, or its
/// number is too large.
pub open spec fn port_error_message(s: Seq<char>) -> Seq<char> {
    if s.len() == 0 {
        "cannot parse integer from empty string"@
    } else if digits_start(s) == s.len() || exists|j: int|
        digits_start(s) <= j < s.len() && !('0' <= #[trigger] s[j] && s[j] <= '9') {
        "invalid digit found in string"@
    } else {
        "number too large to fit in target type"@
    }
}

/// Why a port does not parse, in the words of the integer parser.
fn port_error_text(s: &[char]) -> (r: &'static str)
    ensures
        r@ == port_error_message(s@),
{
    if s.len() == 0 {
        return "cannot parse integer from empty string";
    }
    let mut i: usize = if s[0] == '+' {
        1
    } else {
        0
    };
    if i == s.len() {
        return "invalid digit found in string";
    }
    while i < s.len()
        invariant
            digits_start(s@) <= i <= s@.len(),
            digits_start(s@) < s@.len(),
            forall|j: int| digits_start(s@) <= j < i ==> '0' <= #[trigger] s@[j] && s@[j] <= '9',
        decreases s.len() - i,
    {
        if !('0' <= s[i] && s[i] <= '9') {
            return "invalid digit found in string";
        }
        i = i + 1;
    }
    "number too large to fit in target type"
}

/// Parse URI to extract host and port
pub fn parse_uri(uri: &str) -> (r: Result<(String, u16)>)
    ensures
        match uri_host_port(uri@) {
            Some((host, port)) => r matches Ok((h, p)) && h@ == host && p == port,
            None => r matches Err(Error::Parsing(m)) && has_prefix(m@, "Invalid port: "@),
        },
{
    let chars = str_chars(uri);
    let http: Vec<char> = vec!['h', 't', 't', 'p', ':', '/', '/'];
    let https: Vec<char> = vec!['h', 't', 't', 'p', 's', ':', '/', '/'];
    proof {
        reveal_strlit("http://");
        reveal_strlit("https://");
    }
    assert(http@ =~= "http://"@);
    assert(https@ =~= "https://"@);
    let (rest, default_port) = if chars_start_with(chars.as_slice(), http.as_slice()) {
        (slice_chars(chars.as_slice(), 7, chars.len()), 80u16)
    } else if chars_start_with(chars.as_slice(), https.as_slice()) {
        (slice_chars(chars.as_slice(), 8, chars.len()), 443u16)
    } else {
        (slice_chars(chars.as_slice(), 0, chars.len()), 80u16)
    };
    assert(chars@.subrange(0, chars@.len() as int) =~= chars@);
    match find_char(rest.as_slice(), ':') {
        Some(colon_pos) => {
            let host = slice_chars(rest.as_slice(), 0, colon_pos);
            let port_text = slice_chars(rest.as_slice(), colon_pos + 1, rest.len());
            match parse_unsigned_chars(port_text.as_slice(), 65535) {
                Some(port) => Ok((string_from_chars(host.as_slice()), port as u16)),
                None => {
                    let m = concat_str("Invalid port: ", port_error_text(port_text.as_slice()));
                    assert(m@.subrange(0, "Invalid port: "@.len() as int) =~= "Invalid port: "@);
                    Err(Error::parsing(m))
                },
            }
        },
        None => Ok((string_from_chars(rest.as_slice()), default_port)),
    }
}

/// The headers after adding each default field that they lack, in the
/// order of the defaults.
pub open spec fn with_defaults(h: HeaderList, defaults: HeaderList) -> HeaderList
    decreases defaults.len(),
{
    if defaults.len() == 0 {
        h
    } else {
        let before = with_defaults(h, defaults.drop_last());
        let (name, value) = defaults.last();
        if lookup(before, name) is Some {
            before
        } else {
            set_field(before, name, value)
        }
    }
}

/// After the defaults are applied, every default header is present.
pub proof fn lemma_defaults_present(h: HeaderList, defaults: HeaderList)
    ensures
        forall|i: int| 0 <= i < defaults.len() ==> lookup(with_defaults(h, defaults), #[trigger] defaults[i].0) is Some,
    decreases defaults.len(),
{
    if defaults.len() > 0 {
        let rest = defaults.drop_last();
        lemma_defaults_present(h, rest);
        let before = with_defaults(h, rest);
        let (name, value) = defaults.last();
        assert forall|i: int| 0 <= i < defaults.len() implies lookup(
            with_defaults(h, defaults),
            #[trigger] defaults[i].0,
        ) is Some by {
            let q = defaults[i].0;
            if i < rest.len() {
                assert(rest[i] == defaults[i]);
                assert(lookup(before, q) is Some);
            }
            if lookup(before, name) is None {
                if crate::text::lowercase(q) == crate::text::lowercase(name) {
                    lemma_get_after_set(before, name, value, q);
                } else {
                    lemma_get_other_after_set(before, name, value, q);
                }
            }
        }
    }
}

/// Applying defaults never changes a header that was already present.
pub proof fn lemma_defaults_keep_present(h: HeaderList, defaults: HeaderList, q: Seq<char>)
    requires
        lookup(h, q) is Some,
    ensures
        lookup(with_defaults(h, defaults), q) == lookup(h, q),
    decreases defaults.len(),
{
    if defaults.len() > 0 {
        let rest = defaults.drop_last();
        lemma_defaults_keep_present(h, rest, q);
        let before = with_defaults(h, rest);
        let (name, value) = defaults.last();
        if lookup(before, name) is None {
            if crate::text::lowercase(q) == crate::text::lowercase(name) {
                assert(lookup(before, q) == lookup(before, name));
            } else {
                lemma_get_other_after_set(before, name, value, q);
            }
        }
    }
}

/// Defaults whose names are all present change nothing.
proof fn lemma_defaults_on_complete(h: HeaderList, defaults: HeaderList)
    requires
        forall|i: int| 0 <= i < defaults.len() ==> lookup(h, #[trigger] defaults[i].0) is Some,
    ensures
        with_defaults(h, defaults) == h,
    decreases defaults.len(),
{
    if defaults.len() > 0 {
        let rest = defaults.drop_last();
        assert forall|i: int| 0 <= i < rest.len() implies lookup(h, #[trigger] rest[i].0) is Some by {
            assert(rest[i] == defaults[i]);
        }
        lemma_defaults_on_complete(h, rest);
        assert(lookup(h, defaults[defaults.len() - 1].0) is Some);
    }
}

/// Applying a client's defaults a second time changes nothing.
pub proof fn lemma_defaults_idempotent(h: HeaderList, defaults: HeaderList)
    ensures
        with_defaults(with_defaults(h, defaults), defaults) == with_defaults(h, defaults),
{
    lemma_defaults_present(h, defaults);
    lemma_defaults_on_complete(with_defaults(h, defaults), defaults);
}

/// The request as a client with these defaults sends it: each default
/// header that the request lacks is added, and the default timeout is used
/// where the request has none.
pub fn apply_defaults(default_headers: &HttpHeaders, default_timeout: Duration, request: HttpRequest) -> (r:
    HttpRequest)
    ensures
        r.headers@ == with_defaults(request.headers@, default_headers@),
        r.timeout == (match request.timeout {
            Some(t) => Some(t),
            None => Some(default_timeout),
        }),
        r.method == request.method,
        r.uri == request.uri,
        r.version == request.version,
        r.body == request.body,
        r.follow_redirects == request.follow_redirects,
        r.max_redirects == request.max_redirects,
{
    let mut req = request;
    let defaults = default_headers.pairs();
    let ghost d = default_headers@;
    let ghost start = req.headers@;
    let mut i: usize = 0;
    while i < defaults.len()
        invariant
            i <= defaults@.len(),
            defaults@.len() == d.len(),
            forall|k: int| 0 <= k < defaults@.len() ==> (#[trigger] defaults@[k]).0@ == d[k].0 && defaults@[k].1@
                == d[k].1,
            req.headers@ == with_defaults(start, d.take(i as int)),
            start == request.headers@,
            req.timeout == request.timeout,
            req.method == request.method,
            req.uri == request.uri,
            req.version == request.version,
            req.body == request.body,
            req.follow_redirects == request.follow_redirects,
            req.max_redirects == request.max_redirects,
        decreases defaults@.len() - i,
    {
        let (name, value) = (&defaults[i].0, &defaults[i].1);
        assert(d.take(i + 1).drop_last() =~= d.take(i as int));
        if !req.headers.contains(name.as_str()) {
            req.headers.set(name.as_str(), value.as_str());
        }
        i = i + 1;
    }
    assert(d.take(d.len() as int) =~= d);
    if req.timeout.is_none() {
        req.timeout = Some(default_timeout);
    }
    req
}

/// Where a client follows a response to: the location of a redirection,
/// while the request allows redirects and fewer than its limit were taken.
pub fn redirect_target(response: &HttpResponse, request: &HttpRequest, redirect_count: usize) -> (r: Option<
    String,
>)
    ensures
        match (if is_redirection_status(response.status) && request.follow_redirects && redirect_count
            < request.max_redirects {
            lookup(response.headers@, "location"@)
        } else {
            None
        }) {
            Some(v) => r matches Some(s) && s@ == v,
            None => r is None,
        },
{
    if response.is_redirection() && request.follow_redirects && redirect_count < request.max_redirects {
        match response.redirect_location() {
            Some(location) => Some(location.clone()),
            None => None,
        }
    } else {
        None
    }
}

} // verus!
