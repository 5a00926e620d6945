//! HTTP cache: entries with their freshness, `Cache-Control` directives,
//! and size-bounded partitions with their eviction policies.

use vstd::prelude::*;
use crate::table::{KeyedTable, Entries, distinct_keys, table_get, table_keys, table_insert, table_remove, index_of_key,
    lemma_index_of_key_bounds, lemma_insert_new_key};
use crate::text::{split_on, split_chars, trim, trim_chars, lowercase, to_lowercase, parse_unsigned,
    parse_unsigned_chars, string_from_chars, str_equal, str_to_string, copy_string, lemma_split_nonempty};
use crate::time::{Duration, Timestamp};
use crate::tls::texts;
use crate::security::{UrlParts, url_components, parts_view, parse_url};
use crate::digest::{sha256, sha256_digest};
use crate::text::push_char;
use vstd::string::StringSliceAdditionalSpecFns;
use std::collections::VecDeque;

verus! {

/// Cache entry status
#[derive(Debug, Clone, Copy, PartialEq, Eq, Structural)]
pub enum CacheStatus {
    Fresh,
    Stale,
    Expired,
    Invalid,
}

/// Eviction policy
#[derive(Debug, Clone, Copy, PartialEq, Eq, Structural)]
pub enum EvictionPolicy {
    /// Least Recently Used
    LRU,
    /// Least Frequently Used
    LFU,
    /// First In, First Out
    FIFO,
    /// Time To Live
    TTL,
    /// Size-based
    Size,
}

/// Cache control directives
#[derive(Debug, Clone)]
pub struct CacheControl {
    /// Max age in seconds
    pub max_age: Option<Duration>,
    /// Shared max age in seconds
    pub s_maxage: Option<Duration>,
    /// No cache flag
    pub no_cache: bool,
    /// No store flag
    pub no_store: bool,
    /// Must revalidate flag
    pub must_revalidate: bool,
    /// Proxy revalidate flag
    pub proxy_revalidate: bool,
    /// Public flag
    pub public: bool,
    /// Private flag
    pub private: bool,
    /// Immutable flag
    pub immutable: bool,
    /// Stale while revalidate in seconds
    pub stale_while_revalidate: Option<Duration>,
    /// Stale if error in seconds
    pub stale_if_error: Option<Duration>,
}

/// The length of an optional duration, in nanoseconds.
pub open spec fn duration_nanos(o: Option<Duration>) -> Option<nat> {
    match o {
        Some(d) => Some(d@),
        None => None,
    }
}

/// A number of seconds, in nanoseconds.
pub open spec fn secs_nanos(o: Option<nat>) -> Option<nat> {
    match o {
        Some(s) => Some(s * 1_000_000_000),
        None => None,
    }
}

/// The directives of a `Cache-Control` value: its comma-separated parts, trimmed.
pub open spec fn directives(header: Seq<char>) -> Seq<Seq<char>> {
    split_on(header, ',').map_values(|d: Seq<char>| trim(d))
}

/// A directive's name: what precedes its first `=`, lower-cased.
pub open spec fn directive_name(d: Seq<char>) -> Seq<char> {
    lowercase(split_on(d, '=')[0])
}

/// A directive's number of seconds: what follows its first `=` (up to any
/// second one), where that reads as a `u64`.
pub open spec fn directive_seconds(d: Seq<char>) -> Option<nat> {
    let parts = split_on(d, '=');
    if parts.len() > 1 {
        parse_unsigned(parts[1], u64::MAX as nat)
    } else {
        None
    }
}

/// Some directive has the name `name`.
pub open spec fn has_directive(ds: Seq<Seq<char>>, name: Seq<char>) -> bool {
    exists|i: int| 0 <= i < ds.len() && directive_name(#[trigger] ds[i]) == name
}

/// The seconds of the last directive named `name` whose value reads as a number.
pub open spec fn last_seconds(ds: Seq<Seq<char>>, name: Seq<char>) -> Option<nat>
    decreases ds.len(),
{
    if ds.len() == 0 {
        None
    } else if directive_name(ds.last()) == name && directive_seconds(ds.last()) is Some {
        directive_seconds(ds.last())
    } else {
        last_seconds(ds.drop_last(), name)
    }
}

/// What `from_header` makes of a list of directives.
pub open spec fn control_from(ds: Seq<Seq<char>>, c: CacheControl) -> bool {
    &&& duration_nanos(c.max_age) == secs_nanos(last_seconds(ds, "max-age"@))
    &&& duration_nanos(c.s_maxage) == secs_nanos(last_seconds(ds, "s-maxage"@))
    &&& c.no_cache == has_directive(ds, "no-cache"@)
    &&& c.no_store == has_directive(ds, "no-store"@)
    &&& c.must_revalidate == has_directive(ds, "must-revalidate"@)
    &&& c.proxy_revalidate == has_directive(ds, "proxy-revalidate"@)
    &&& c.public == has_directive(ds, "public"@)
    &&& c.private == has_directive(ds, "private"@)
    &&& c.immutable == has_directive(ds, "immutable"@)
    &&& duration_nanos(c.stale_while_revalidate) == secs_nanos(last_seconds(ds, "stale-while-revalidate"@))
    &&& duration_nanos(c.stale_if_error) == secs_nanos(last_seconds(ds, "stale-if-error"@))
}

/// No directive at all.
pub open spec fn default_control(c: CacheControl) -> bool {
    &&& c.max_age is None
    &&& c.s_maxage is None
    &&& !c.no_cache
    &&& !c.no_store
    &&& !c.must_revalidate
    &&& !c.proxy_revalidate
    &&& !c.public
    &&& !c.private
    &&& !c.immutable
    &&& c.stale_while_revalidate is None
    &&& c.stale_if_error is None
}

/// The seconds of a directive's value, read as `u64`.
fn seconds_of(parts: &Vec<Vec<char>>) -> (r: Option<u64>)
    ensures
        match r {
            Some(v) => parts@.len() > 1 && parse_unsigned(parts@[1]@, u64::MAX as nat) == Some(v as nat),
            None => !(parts@.len() > 1 && parse_unsigned(parts@[1]@, u64::MAX as nat) is Some),
        },
{
    if parts.len() > 1 {
        parse_unsigned_chars(parts[1].as_slice(), u64::MAX)
    } else {
        None
    }
}

impl CacheControl {
    /// Create default cache control
    pub fn default() -> (r: Self)
        ensures
            default_control(r),
    {
        Self {
            max_age: None,
            s_maxage: None,
            no_cache: false,
            no_store: false,
            must_revalidate: false,
            proxy_revalidate: false,
            public: false,
            private: false,
            immutable: false,
            stale_while_revalidate: None,
            stale_if_error: None,
        }
    }

    /// Parse from header string: each comma-separated directive, trimmed, is
    /// matched by its name in any case; flags are set by their name, and the
    /// durations take the seconds of the last directive of their name that
    /// gives a valid number.
    pub fn from_header(header: &str) -> (r: Self)
        ensures
            control_from(directives(header@), r),
    {
        let mut cc = CacheControl::default();
        let chars = crate::text::str_chars(header);
        let pieces = split_chars(chars.as_slice(), ',');
        let ghost ds = directives(header@);
        let ghost raw = pieces@.map_values(|v: Vec<char>| v@);
        assert(ds.len() == pieces@.len());
        assert(ds.subrange(0, 0) =~= Seq::<Seq<char>>::empty());
        let mut i: usize = 0;
        while i < pieces.len()
            invariant
                i <= pieces@.len(),
                raw == pieces@.map_values(|v: Vec<char>| v@),
                ds == raw.map_values(|d: Seq<char>| trim(d)),
                ds.len() == pieces@.len(),
                control_from(ds.subrange(0, i as int), cc),
            decreases pieces@.len() - i,
        {
            let directive = trim_chars(pieces[i].as_slice());
            let ghost pre = ds.subrange(0, i as int);
            let ghost next = ds.subrange(0, i + 1);
            assert(directive@ == ds[i as int]);
            assert(next.drop_last() =~= pre);
            assert(next.last() == directive@);
            let parts = split_chars(directive.as_slice(), '=');
            proof {
                lemma_split_nonempty(directive@, '=');
            }
            let name_text = string_from_chars(parts[0].as_slice());
            let name = to_lowercase(name_text.as_str());
            assert(name@ == directive_name(directive@));
            let ghost secs = directive_seconds(directive@);
            proof {
                assert forall|nm: Seq<char>| #[trigger] has_directive(next, nm) == (has_directive(pre, nm)
                    || directive_name(directive@) == nm) by {
                    if has_directive(next, nm) {
                        let j = choose|j: int| 0 <= j < next.len() && directive_name(#[trigger] next[j]) == nm;
                        if j < i {
                            assert(next[j] == pre[j]);
                        }
                    }
                    if has_directive(pre, nm) {
                        let j = choose|j: int| 0 <= j < pre.len() && directive_name(#[trigger] pre[j]) == nm;
                        assert(next[j] == pre[j]);
                    }
                    if directive_name(directive@) == nm {
                        assert(next[i as int] == directive@);
                    }
                }
            }
            proof {
                reveal_strlit("max-age");
                reveal_strlit("s-maxage");
                reveal_strlit("no-cache");
                reveal_strlit("no-store");
                reveal_strlit("must-revalidate");
                reveal_strlit("proxy-revalidate");
                reveal_strlit("public");
                reveal_strlit("private");
                reveal_strlit("immutable");
                reveal_strlit("stale-while-revalidate");
                reveal_strlit("stale-if-error");
                assert("no-cache"@[3] != "no-store"@[3]);
                assert("no-cache"@[0] != "s-maxage"@[0]);
                assert("no-store"@[0] != "s-maxage"@[0]);
                assert("private"@[0] != "max-age"@[0]);
            }
            assert forall|nm: Seq<char>| #[trigger] last_seconds(next, nm) == (if directive_name(directive@) == nm
                && secs is Some { secs } else { last_seconds(pre, nm) }) by {}
            if str_equal(name.as_str(), "max-age") {
                match seconds_of(&parts) {
                    Some(v) => cc.max_age = Some(Duration::from_secs(v)),
                    None => {},
                }
            } else if str_equal(name.as_str(), "s-maxage") {
                match seconds_of(&parts) {
                    Some(v) => cc.s_maxage = Some(Duration::from_secs(v)),
                    None => {},
                }
            } else if str_equal(name.as_str(), "no-cache") {
                cc.no_cache = true;
            } else if str_equal(name.as_str(), "no-store") {
                cc.no_store = true;
            } else if str_equal(name.as_str(), "must-revalidate") {
                cc.must_revalidate = true;
            } else if str_equal(name.as_str(), "proxy-revalidate") {
                cc.proxy_revalidate = true;
            } else if str_equal(name.as_str(), "public") {
                cc.public = true;
            } else if str_equal(name.as_str(), "private") {
                cc.private = true;
            } else if str_equal(name.as_str(), "immutable") {
                cc.immutable = true;
            } else if str_equal(name.as_str(), "stale-while-revalidate") {
                match seconds_of(&parts) {
                    Some(v) => cc.stale_while_revalidate = Some(Duration::from_secs(v)),
                    None => {},
                }
            } else if str_equal(name.as_str(), "stale-if-error") {
                match seconds_of(&parts) {
                    Some(v) => cc.stale_if_error = Some(Duration::from_secs(v)),
                    None => {},
                }
            }
            i = i + 1;
        }
        assert(ds.subrange(0, pieces@.len() as int) =~= ds);
        cc
    }

    /// Check if entry is cacheable
    pub fn is_cacheable(&self) -> (r: bool)
        ensures
            r == (!self.no_store && !self.private),
    {
        !self.no_store && !self.private
    }

    /// Check if entry requires revalidation
    pub fn requires_revalidation(&self) -> (r: bool)
        ensures
            r == (self.no_cache || self.must_revalidate || self.proxy_revalidate),
    {
        self.no_cache || self.must_revalidate || self.proxy_revalidate
    }
}

/// Cache entry
#[derive(Debug, Clone)]
pub struct CacheEntry {
    /// Entry key (URL)
    pub key: String,
    /// Response data
    pub data: Vec<u8>,
    /// Response headers
    pub headers: KeyedTable<String>,
    /// HTTP status code
    pub status_code: u16,
    /// Creation time
    pub created: Timestamp,
    /// Last modified time
    pub last_modified: Option<Timestamp>,
    /// Expiration time
    pub expires: Option<Timestamp>,
    /// ETag
    pub etag: Option<String>,
    /// Cache control directives
    pub cache_control: CacheControl,
    /// Content type
    pub content_type: String,
    /// Content length
    pub content_length: usize,
    /// Compression type
    pub compression: Option<String>,
    /// Access count
    pub access_count: u64,
    /// Last access time
    pub last_accessed: Timestamp,
    /// Size in bytes
    pub size: usize,
}

/// The time from `a` to `b`, or zero where `b` is not later.
pub open spec fn time_until(a: Timestamp, b: Timestamp) -> nat {
    if b@ >= a@ {
        (b@ - a@) as nat
    } else {
        0
    }
}

/// The entry is fresh at `now`: it has no expiry, or its expiry lies ahead.
pub open spec fn entry_fresh_at(e: CacheEntry, now: Timestamp) -> bool {
    match e.expires {
        Some(x) => now@ < x@,
        None => true,
    }
}

/// The entry is stale at `now`: its expiry has been reached.
pub open spec fn entry_stale_at(e: CacheEntry, now: Timestamp) -> bool {
    match e.expires {
        Some(x) => now@ >= x@,
        None => false,
    }
}

/// The entry has expired at `now`: its expiry has passed.
pub open spec fn entry_expired_at(e: CacheEntry, now: Timestamp) -> bool {
    match e.expires {
        Some(x) => now@ > x@,
        None => false,
    }
}

/// The entry's status at `now`.
pub open spec fn entry_status_at(e: CacheEntry, now: Timestamp) -> CacheStatus {
    if entry_expired_at(e, now) {
        CacheStatus::Expired
    } else if entry_stale_at(e, now) {
        CacheStatus::Stale
    } else if entry_fresh_at(e, now) {
        CacheStatus::Fresh
    } else {
        CacheStatus::Invalid
    }
}

/// At any moment an entry is fresh or stale and not both; an expired entry is
/// stale; so its status is never `Invalid`, and it is `Fresh` exactly when
/// the entry is fresh.
pub proof fn lemma_entry_status(e: CacheEntry, now: Timestamp)
    ensures
        entry_fresh_at(e, now) != entry_stale_at(e, now),
        entry_expired_at(e, now) ==> entry_stale_at(e, now),
        entry_status_at(e, now) != CacheStatus::Invalid,
        (entry_status_at(e, now) == CacheStatus::Fresh) == entry_fresh_at(e, now),
{
}

impl CacheEntry {
    /// Create new cache entry, created and last accessed now, with no expiry
    /// and default directives.
    pub fn new(key: String, data: Vec<u8>, headers: KeyedTable<String>, status_code: u16) -> (r: Self)
        ensures
            r.key == key,
            r.data == data,
            r.headers == headers,
            r.status_code == status_code,
            r.last_accessed == r.created,
            r.last_modified is None,
            r.expires is None,
            r.etag is None,
            default_control(r.cache_control),
            r.content_type@ == "application/octet-stream"@,
            r.content_length == data@.len(),
            r.compression is None,
            r.access_count == 0,
            r.size == data@.len(),
    {
        let content_length = data.len();
        let now = Timestamp::now();
        Self {
            key,
            data,
            headers,
            status_code,
            created: now,
            last_modified: None,
            expires: None,
            etag: None,
            cache_control: CacheControl::default(),
            content_type: str_to_string("application/octet-stream"),
            content_length,
            compression: None,
            access_count: 0,
            last_accessed: now,
            size: content_length,
        }
    }

    /// Whether the entry is fresh at `now`.
    pub fn is_fresh_at(&self, now: Timestamp) -> (r: bool)
        ensures
            r == entry_fresh_at(*self, now),
    {
        match &self.expires {
            Some(x) => now.is_before(x),
            None => true,
        }
    }

    /// Whether the entry is stale at `now`.
    pub fn is_stale_at(&self, now: Timestamp) -> (r: bool)
        ensures
            r == entry_stale_at(*self, now),
    {
        match &self.expires {
            Some(x) => !now.is_before(x),
            None => false,
        }
    }

    /// Whether the entry has expired at `now`.
    pub fn is_expired_at(&self, now: Timestamp) -> (r: bool)
        ensures
            r == entry_expired_at(*self, now),
    {
        match &self.expires {
            Some(x) => now.is_after(x),
            None => false,
        }
    }

    /// The entry's status at `now`.
    pub fn status_at(&self, now: Timestamp) -> (r: CacheStatus)
        ensures
            r == entry_status_at(*self, now),
    {
        if self.is_expired_at(now) {
            CacheStatus::Expired
        } else if self.is_stale_at(now) {
            CacheStatus::Stale
        } else if self.is_fresh_at(now) {
            CacheStatus::Fresh
        } else {
            CacheStatus::Invalid
        }
    }

    /// Check if entry is fresh, at the moment of the call.
    pub fn is_fresh(&self) -> (r: bool)
        ensures
            exists|now: Timestamp| r == entry_fresh_at(*self, now),
    {
        self.is_fresh_at(Timestamp::now())
    }

    /// Check if entry is stale, at the moment of the call.
    pub fn is_stale(&self) -> (r: bool)
        ensures
            exists|now: Timestamp| r == entry_stale_at(*self, now),
    {
        self.is_stale_at(Timestamp::now())
    }

    /// Check if entry is expired, at the moment of the call.
    pub fn is_expired(&self) -> (r: bool)
        ensures
            exists|now: Timestamp| r == entry_expired_at(*self, now),
    {
        self.is_expired_at(Timestamp::now())
    }

    /// Get cache status, at the moment of the call.
    pub fn status(&self) -> (r: CacheStatus)
        ensures
            exists|now: Timestamp| r == entry_status_at(*self, now),
            r != CacheStatus::Invalid,
    {
        let now = Timestamp::now();
        proof {
            lemma_entry_status(*self, now);
        }
        self.status_at(now)
    }

    /// Record an access at `now`.
    pub fn update_access_at(&mut self, now: Timestamp)
        requires
            old(self).access_count < u64::MAX,
        ensures
            *final(self) == (CacheEntry {
                access_count: (old(self).access_count + 1) as u64,
                last_accessed: now,
                ..*old(self)
            }),
    {
        self.access_count = self.access_count + 1;
        self.last_accessed = now;
    }

    /// Update access information, at the moment of the call.
    pub fn update_access(&mut self)
        requires
            old(self).access_count < u64::MAX,
        ensures
            *final(self) == (CacheEntry {
                access_count: (old(self).access_count + 1) as u64,
                last_accessed: final(self).last_accessed,
                ..*old(self)
            }),
    {
        self.update_access_at(Timestamp::now());
    }

    /// The entry's age at `now`: the time since its creation, or zero.
    pub fn age_at(&self, now: Timestamp) -> (r: Duration)
        ensures
            r@ == time_until(self.created, now),
    {
        now.saturating_duration_since(&self.created)
    }

    /// Calculate age, at the moment of the call.
    pub fn age(&self) -> (r: Duration)
        ensures
            exists|now: Timestamp| r@ == time_until(self.created, now),
    {
        self.age_at(Timestamp::now())
    }

    /// The time the entry has left at `now`: until its expiry, or zero; none
    /// without an expiry.
    pub fn ttl_at(&self, now: Timestamp) -> (r: Option<Duration>)
        ensures
            match self.expires {
                Some(x) => r matches Some(d) && d@ == time_until(now, x),
                None => r is None,
            },
    {
        match &self.expires {
            Some(x) => Some(x.saturating_duration_since(&now)),
            None => None,
        }
    }

    /// Calculate time to live, at the moment of the call.
    pub fn ttl(&self) -> (r: Option<Duration>)
        ensures
            match self.expires {
                Some(x) => r matches Some(d) && exists|now: Timestamp| d@ == time_until(now, x),
                None => r is None,
            },
    {
        self.ttl_at(Timestamp::now())
    }
}

/// Cache partition
#[derive(Debug, Clone)]
pub struct CachePartition {
    /// Partition name (domain)
    pub name: String,
    /// Maximum size in bytes
    pub max_size: usize,
    /// Current size in bytes
    pub current_size: usize,
    /// Maximum entries
    pub max_entries: usize,
    /// Current entries
    pub current_entries: usize,
    /// Eviction policy
    pub eviction_policy: EvictionPolicy,
    /// Entries
    pub entries: KeyedTable<CacheEntry>,
    /// Access order (for LRU)
    pub access_order: VecDeque<String>,
}

/// The total size of the entries of a table.
pub open spec fn entry_sizes(t: Entries<CacheEntry>) -> nat
    decreases t.len(),
{
    if t.len() == 0 {
        0
    } else {
        entry_sizes(t.drop_last()) + t.last().1.size as nat
    }
}

/// Taking out one entry takes its size from the total.
pub proof fn lemma_sizes_remove(t: Entries<CacheEntry>, i: int)
    requires
        0 <= i < t.len(),
    ensures
        entry_sizes(t.remove(i)) + t[i].1.size == entry_sizes(t),
    decreases t.len(),
{
    if i < t.len() - 1 {
        lemma_sizes_remove(t.drop_last(), i);
        assert(t.remove(i).drop_last() =~= t.drop_last().remove(i));
        assert(t.remove(i).last() == t.last());
    } else {
        assert(t.remove(i) =~= t.drop_last());
    }
}

/// Replacing one entry changes the total by the difference of the sizes.
pub proof fn lemma_sizes_update(t: Entries<CacheEntry>, i: int, x: (Seq<char>, CacheEntry))
    requires
        0 <= i < t.len(),
    ensures
        entry_sizes(t.update(i, x)) + t[i].1.size == entry_sizes(t) + x.1.size,
{
    lemma_sizes_remove(t, i);
    lemma_sizes_remove(t.update(i, x), i);
    assert(t.update(i, x).remove(i) =~= t.remove(i));
}

/// The position of the first occurrence of `k`, or the length of the list.
pub open spec fn first_pos(order: Seq<Seq<char>>, k: Seq<char>) -> nat
    decreases order.len(),
{
    if order.len() == 0 {
        0
    } else if order[0] == k {
        0
    } else {
        1 + first_pos(order.drop_first(), k)
    }
}

/// The list without the first occurrence of `k`, if any.
pub open spec fn remove_first(order: Seq<Seq<char>>, k: Seq<char>) -> Seq<Seq<char>> {
    let j = first_pos(order, k);
    if j < order.len() {
        order.remove(j as int)
    } else {
        order
    }
}

/// `first_pos` is the first position holding `k`.
pub proof fn lemma_first_pos(order: Seq<Seq<char>>, k: Seq<char>, i: int)
    requires
        0 <= i <= order.len(),
        forall|j: int| 0 <= j < i ==> order[j] != k,
        i == order.len() || order[i] == k,
    ensures
        first_pos(order, k) == i,
    decreases i,
{
    if i > 0 {
        let t = order.drop_first();
        assert forall|j: int| 0 <= j < i - 1 implies t[j] != k by {
            assert(t[j] == order[j + 1]);
        }
        if i < order.len() {
            assert(t[i - 1] == order[i]);
        }
        lemma_first_pos(t, k, i - 1);
    }
}

/// Taking out the first occurrence of `k` keeps every other key that occurs.
pub proof fn lemma_remove_first_keeps(order: Seq<Seq<char>>, k: Seq<char>, other: Seq<char>)
    requires
        other != k,
        order.contains(other),
    ensures
        remove_first(order, k).contains(other),
{
    let w = choose|w: int| 0 <= w < order.len() && order[w] == other;
    if first_pos(order, k) < order.len() {
        let j = first_pos(order, k) as int;
        let r = remove_first(order, k);
        if w < j {
            assert(r[w] == other);
        } else if w > j {
            assert(r[w - 1] == other);
        } else {
            lemma_first_pos_props(order, k);
        }
    }
}

/// What `first_pos` finds holds `k`, and nothing before it does.
pub proof fn lemma_first_pos_props(order: Seq<Seq<char>>, k: Seq<char>)
    ensures
        first_pos(order, k) <= order.len(),
        first_pos(order, k) < order.len() ==> order[first_pos(order, k) as int] == k,
        forall|j: int| 0 <= j < first_pos(order, k) ==> order[j] != k,
    decreases order.len(),
{
    if order.len() > 0 && order[0] != k {
        let t = order.drop_first();
        lemma_first_pos_props(t, k);
        assert forall|j: int| 0 <= j < first_pos(order, k) implies order[j] != k by {
            if j > 0 {
                assert(order[j] == t[j - 1]);
            }
        }
    }
}

/// The partition's bookkeeping agrees with its entries: the counts and sizes
/// are those of the entries, and every key occurs in the access order.
pub open spec fn partition_wf(p: CachePartition) -> bool {
    &&& distinct_keys(p.entries@)
    &&& p.current_entries == p.entries@.len()
    &&& p.current_size == entry_sizes(p.entries@)
    &&& forall|k: Seq<char>| #[trigger] table_keys(p.entries@).contains(k) ==> texts(p.access_order@).contains(k)
}

/// The settings of a partition stay as they were.
pub open spec fn same_settings(a: CachePartition, b: CachePartition) -> bool {
    &&& a.name == b.name
    &&& a.max_size == b.max_size
    &&& a.max_entries == b.max_entries
    &&& a.eviction_policy == b.eviction_policy
}

/// Takes the first occurrence of `key` out of the access order.
fn remove_from_order(order: &mut VecDeque<String>, key: &str)
    ensures
        texts(final(order)@) == remove_first(texts(old(order)@), key@),
{
    let ghost o = texts(order@);
    let mut i: usize = 0;
    while i < order.len()
        invariant
            i <= order@.len(),
            o == texts(order@),
            *order == *old(order),
            forall|j: int| 0 <= j < i ==> o[j] != key@,
        decreases order@.len() - i,
    {
        assert(o[i as int] == order@[i as int]@);
        if str_equal(order[i].as_str(), key) {
            proof {
                lemma_first_pos(o, key@, i as int);
            }
            order.remove(i);
            assert(texts(order@) =~= o.remove(i as int));
            return;
        }
        i = i + 1;
    }
    proof {
        lemma_first_pos(o, key@, i as int);
    }
}

/// The entry an eviction scan picks: going through the entries in order, it
/// takes the first eligible one, then any later one that beats the one held.
pub open spec fn pick(
    t: Entries<CacheEntry>,
    beats: spec_fn(CacheEntry, CacheEntry) -> bool,
    eligible: spec_fn(CacheEntry) -> bool,
) -> Option<int>
    decreases t.len(),
{
    if t.len() == 0 {
        None
    } else {
        let e = t.last().1;
        match pick(t.drop_last(), beats, eligible) {
            Some(j) => if beats(e, t[j].1) {
                Some(t.len() - 1)
            } else {
                Some(j)
            },
            None => if eligible(e) {
                Some(t.len() - 1)
            } else {
                None
            },
        }
    }
}

/// Least frequently used: fewer accesses beat more.
pub open spec fn lfu_beats() -> spec_fn(CacheEntry, CacheEntry) -> bool {
    |a: CacheEntry, b: CacheEntry| a.access_count < b.access_count
}

/// Any entry accessed fewer than `u64::MAX` times can be picked by frequency.
pub open spec fn lfu_eligible() -> spec_fn(CacheEntry) -> bool {
    |a: CacheEntry| a.access_count < u64::MAX
}

/// Oldest first: an earlier creation beats a later one.
pub open spec fn ttl_beats() -> spec_fn(CacheEntry, CacheEntry) -> bool {
    |a: CacheEntry, b: CacheEntry| a.created@ < b.created@
}

/// Any entry created before `now` can be picked by age.
pub open spec fn ttl_eligible(now: Timestamp) -> spec_fn(CacheEntry) -> bool {
    |a: CacheEntry| a.created@ < now@
}

/// Largest first: a larger size beats a smaller one.
pub open spec fn size_beats() -> spec_fn(CacheEntry, CacheEntry) -> bool {
    |a: CacheEntry, b: CacheEntry| a.size > b.size
}

/// Any non-empty entry can be picked by size.
pub open spec fn size_eligible() -> spec_fn(CacheEntry) -> bool {
    |a: CacheEntry| a.size > 0
}

/// The position a scan found, or else the first entry of a table of `len`
/// entries, so that a table with entries always gives one up.
pub open spec fn or_first(found: Option<int>, len: nat) -> Option<int> {
    match found {
        Some(j) => Some(j),
        None => if len > 0 {
            Some(0)
        } else {
            None
        },
    }
}

/// The entry that `policy` evicts from `t` at `now`, for the policies that
/// scan the entries: the one the scan picks, or the first entry where no
/// entry is eligible (every count at its largest under LFU, nothing created
/// before `now` under TTL, only empty entries under Size).
pub open spec fn victim_in(policy: EvictionPolicy, t: Entries<CacheEntry>, now: Timestamp) -> Option<int> {
    match policy {
        EvictionPolicy::LFU => or_first(pick(t, lfu_beats(), lfu_eligible()), t.len()),
        EvictionPolicy::TTL => or_first(pick(t, ttl_beats(), ttl_eligible(now)), t.len()),
        EvictionPolicy::Size => or_first(pick(t, size_beats(), size_eligible()), t.len()),
        _ => None,
    }
}

/// The largest-first scan picks an entry no smaller than any other, and
/// picks none only where every entry is empty.
proof fn lemma_size_pick_largest(t: Entries<CacheEntry>)
    ensures
        pick(t, size_beats(), size_eligible()) matches Some(j) ==> 0 <= j < t.len() && forall|i: int|
            0 <= i < t.len() ==> #[trigger] t[i].1.size <= t[j].1.size,
        pick(t, size_beats(), size_eligible()) is None ==> forall|i: int| 0 <= i < t.len() ==> #[trigger] t[i].1.size
            == 0,
    decreases t.len(),
{
    if t.len() > 0 {
        let u = t.drop_last();
        lemma_size_pick_largest(u);
        lemma_pick_in_range(u, size_beats(), size_eligible());
        assert forall|i: int| 0 <= i < u.len() implies #[trigger] t[i] == u[i] by {}
    }
}

/// Under the Size policy the entry evicted is the largest: no entry of the
/// partition is larger than the one that goes.
pub proof fn lemma_size_evicts_largest(t: Entries<CacheEntry>, now: Timestamp)
    ensures
        victim_in(EvictionPolicy::Size, t, now) matches Some(j) ==> 0 <= j < t.len() && forall|i: int|
            0 <= i < t.len() ==> #[trigger] t[i].1.size <= t[j].1.size,
{
    lemma_size_pick_largest(t);
}

/// The least-frequent scan picks an entry read no more often than any
/// other, and picks none only where every count is at its largest.
proof fn lemma_lfu_pick_least(t: Entries<CacheEntry>)
    ensures
        pick(t, lfu_beats(), lfu_eligible()) matches Some(j) ==> 0 <= j < t.len() && forall|i: int|
            0 <= i < t.len() ==> t[j].1.access_count <= #[trigger] t[i].1.access_count,
        pick(t, lfu_beats(), lfu_eligible()) is None ==> forall|i: int|
            0 <= i < t.len() ==> #[trigger] t[i].1.access_count == u64::MAX,
    decreases t.len(),
{
    if t.len() > 0 {
        let u = t.drop_last();
        lemma_lfu_pick_least(u);
        lemma_pick_in_range(u, lfu_beats(), lfu_eligible());
        assert forall|i: int| 0 <= i < u.len() implies #[trigger] t[i] == u[i] by {}
    }
}

/// Under the LFU policy the entry evicted is read least often: no entry of
/// the partition has a smaller access count than the one that goes.
pub proof fn lemma_lfu_evicts_least_used(t: Entries<CacheEntry>, now: Timestamp)
    ensures
        victim_in(EvictionPolicy::LFU, t, now) matches Some(j) ==> 0 <= j < t.len() && forall|i: int|
            0 <= i < t.len() ==> t[j].1.access_count <= #[trigger] t[i].1.access_count,
{
    lemma_lfu_pick_least(t);
}

/// The oldest-first scan picks an entry created before `now` and no later
/// than any other, and picks none only where nothing was created before `now`.
proof fn lemma_ttl_pick_oldest(t: Entries<CacheEntry>, now: Timestamp)
    ensures
        pick(t, ttl_beats(), ttl_eligible(now)) matches Some(j) ==> 0 <= j < t.len() && t[j].1.created@ < now@
            && forall|i: int| 0 <= i < t.len() ==> t[j].1.created@ <= #[trigger] t[i].1.created@,
        pick(t, ttl_beats(), ttl_eligible(now)) is None ==> forall|i: int|
            0 <= i < t.len() ==> now@ <= #[trigger] t[i].1.created@,
    decreases t.len(),
{
    if t.len() > 0 {
        let u = t.drop_last();
        lemma_ttl_pick_oldest(u, now);
        lemma_pick_in_range(u, ttl_beats(), ttl_eligible(now));
        assert forall|i: int| 0 <= i < u.len() implies #[trigger] t[i] == u[i] by {}
    }
}

/// Under the TTL policy, where some entry was created before `now`, the
/// entry evicted is the oldest: none was created before it.
pub proof fn lemma_ttl_evicts_oldest(t: Entries<CacheEntry>, now: Timestamp)
    requires
        exists|k: int| 0 <= k < t.len() && #[trigger] t[k].1.created@ < now@,
    ensures
        victim_in(EvictionPolicy::TTL, t, now) matches Some(j) && 0 <= j < t.len() && forall|i: int|
            0 <= i < t.len() ==> t[j].1.created@ <= #[trigger] t[i].1.created@,
{
    lemma_ttl_pick_oldest(t, now);
}

/// Under LRU and FIFO an eviction takes the key that has waited longest in
/// the access order: the most recently added key stays, as do all others
/// but the first, in their order.
pub proof fn lemma_order_evicts_oldest(
    policy: EvictionPolicy,
    t: Entries<CacheEntry>,
    order: Seq<Seq<char>>,
    now: Timestamp,
)
    requires
        policy is LRU || policy is FIFO,
        order.len() >= 1,
        distinct_keys(t),
    ensures
        evict_step(policy, t, order, now) matches Some((t2, o2)) && o2.len() + 1 == order.len() && (forall|i: int|
            0 <= i < o2.len() ==> #[trigger] o2[i] == order[i + 1]) && (order.len() >= 2 ==> o2.last()
            == order.last()) && forall|i: int|
            0 <= i < t2.len() ==> #[trigger] t2[i].0 != order[0],
{
    crate::table::lemma_index_of_key_bounds(t, order[0]);
    let t2 = table_remove(t, order[0]);
    assert forall|i: int| 0 <= i < t2.len() implies #[trigger] t2[i].0 != order[0] by {
        crate::table::lemma_get_after_remove(t, order[0]);
        crate::table::lemma_get_iff_key(t2, order[0]);
        assert(table_keys(t2)[i] == t2[i].0);
        assert(table_keys(t2).contains(t2[i].0));
    }
}

/// Nothing is evicted for an entry that already fits: where the entries
/// and the new one together stay within the size limit and the count is
/// below its limit, making room leaves the entries and the order as they are.
pub proof fn lemma_no_eviction_when_it_fits(
    policy: EvictionPolicy,
    t: Entries<CacheEntry>,
    order: Seq<Seq<char>>,
    now: Timestamp,
    size: nat,
    max_size: nat,
    max_entries: nat,
)
    requires
        entry_sizes(t) + size <= max_size,
        t.len() < max_entries,
    ensures
        make_room(policy, t, order, now, size, max_size, max_entries) == (t, order),
{
}

/// The scan's pick, or the first entry where it picked none.
fn first_if_none(found: Option<usize>, len: usize) -> (r: Option<usize>)
    requires
        found matches Some(j) ==> j < len,
    ensures
        r == (match or_first(
            match found {
                Some(j) => Some(j as int),
                None => None,
            },
            len as nat,
        ) {
            Some(j) => Some(j as usize),
            None => None,
        }),
        r matches Some(j) ==> j < len,
{
    match found {
        Some(j) => Some(j),
        None => if len > 0 {
            Some(0)
        } else {
            None
        },
    }
}

/// The entry that the partition's policy evicts at `now`, for the policies
/// that scan the entries.
pub open spec fn scan_victim(p: CachePartition, now: Timestamp) -> Option<int> {
    victim_in(p.eviction_policy, p.entries@, now)
}

/// One eviction step on the entries `t` with access order `order`: under
/// LRU and FIFO the front key leaves the order and its entry (if any) the
/// table; under the other policies the picked entry leaves, with the first
/// occurrence of its key. None where nothing can be evicted.
pub open spec fn evict_step(
    policy: EvictionPolicy,
    t: Entries<CacheEntry>,
    order: Seq<Seq<char>>,
    now: Timestamp,
) -> Option<(Entries<CacheEntry>, Seq<Seq<char>>)> {
    if policy is LRU || policy is FIFO {
        if order.len() == 0 {
            None
        } else {
            Some((table_remove(t, order[0]), order.drop_first()))
        }
    } else {
        match victim_in(policy, t, now) {
            Some(j) => if 0 <= j < t.len() {
                Some((t.remove(j), remove_first(order, t[j].0)))
            } else {
                None
            },
            None => None,
        }
    }
}

/// Entries `t` leave no room for a new entry of `size` bytes: the size or
/// the count would pass its limit.
pub open spec fn needs_room(t: Entries<CacheEntry>, size: nat, max_size: nat, max_entries: nat) -> bool {
    entry_sizes(t) + size > max_size || t.len() >= max_entries
}

/// The entries and access order after evicting, step by step, while the
/// table is not empty and leaves no room for a new entry of `size` bytes,
/// until nothing more can be evicted.
pub open spec fn make_room(
    policy: EvictionPolicy,
    t: Entries<CacheEntry>,
    order: Seq<Seq<char>>,
    now: Timestamp,
    size: nat,
    max_size: nat,
    max_entries: nat,
) -> (Entries<CacheEntry>, Seq<Seq<char>>)
    decreases t.len() + order.len(),
{
    if t.len() > 0 && needs_room(t, size, max_size, max_entries) {
        match evict_step(policy, t, order, now) {
            Some((t2, o2)) => {
                proof {
                    lemma_evict_step_shrinks(policy, t, order, now);
                }
                make_room(policy, t2, o2, now, size, max_size, max_entries)
            },
            None => (t, order),
        }
    } else {
        (t, order)
    }
}

/// There is room for a new entry of `size` bytes: the table is empty, or
/// neither limit would be passed.
pub open spec fn room_made(t: Entries<CacheEntry>, size: nat, max_size: nat, max_entries: nat) -> bool {
    t.len() == 0 || !needs_room(t, size, max_size, max_entries)
}

/// Evicting while there is no room stops with room made, or where nothing
/// can be evicted.
pub proof fn lemma_make_room_stops(
    policy: EvictionPolicy,
    t: Entries<CacheEntry>,
    order: Seq<Seq<char>>,
    now: Timestamp,
    size: nat,
    max_size: nat,
    max_entries: nat,
)
    ensures
        ({
            let (t1, o1) = make_room(policy, t, order, now, size, max_size, max_entries);
            room_made(t1, size, max_size, max_entries) || evict_step(policy, t1, o1, now) is None
        }),
    decreases t.len() + order.len(),
{
    if t.len() > 0 && needs_room(t, size, max_size, max_entries) {
        match evict_step(policy, t, order, now) {
            Some((t2, o2)) => {
                lemma_evict_step_shrinks(policy, t, order, now);
                lemma_make_room_stops(policy, t2, o2, now, size, max_size, max_entries);
            },
            None => {},
        }
    }
}

/// An eviction step makes the entries and the access order shorter.
pub proof fn lemma_evict_step_shrinks(
    policy: EvictionPolicy,
    t: Entries<CacheEntry>,
    order: Seq<Seq<char>>,
    now: Timestamp,
)
    ensures
        evict_step(policy, t, order, now) matches Some((t2, o2)) ==> t2.len() + o2.len() < t.len() + order.len(),
{
    if let Some((t2, o2)) = evict_step(policy, t, order, now) {
        if policy is LRU || policy is FIFO {
            lemma_index_of_key_bounds(t, order[0]);
        } else {
            let j = victim_in(policy, t, now)->0;
            lemma_first_pos_props(order, t[j].0);
        }
    }
}

/// What one eviction step does: under LRU and FIFO the key at the front of
/// the access order leaves it, and its entry (if any) leaves the table;
/// under the other policies the picked entry leaves, with the first
/// occurrence of its key. `r` tells whether anything changed.
pub open spec fn evict_outcome(old: CachePartition, new: CachePartition, now: Timestamp, r: bool) -> bool {
    &&& partition_wf(new)
    &&& same_settings(new, old)
    &&& if old.eviction_policy is LRU || old.eviction_policy is FIFO {
        if old.access_order@.len() == 0 {
            !r && new.entries@ == old.entries@ && new.access_order@ == old.access_order@
        } else {
            &&& r
            &&& texts(new.access_order@) == texts(old.access_order@).drop_first()
            &&& new.entries@ == table_remove(old.entries@, old.access_order@[0]@)
        }
    } else {
        match scan_victim(old, now) {
            Some(j) => {
                &&& r
                &&& new.entries@ == old.entries@.remove(j)
                &&& texts(new.access_order@) == remove_first(texts(old.access_order@), old.entries@[j].0)
            },
            None => !r && new.entries@ == old.entries@ && new.access_order@ == old.access_order@,
        }
    }
}

/// The picked entry exists.
pub proof fn lemma_pick_in_range(
    t: Entries<CacheEntry>,
    beats: spec_fn(CacheEntry, CacheEntry) -> bool,
    eligible: spec_fn(CacheEntry) -> bool,
)
    ensures
        pick(t, beats, eligible) matches Some(j) ==> 0 <= j < t.len(),
    decreases t.len(),
{
    if t.len() > 0 {
        lemma_pick_in_range(t.drop_last(), beats, eligible);
    }
}

/// The scan over the first `i + 1` entries extends the scan over the first `i`.
proof fn lemma_pick_step(
    t: Entries<CacheEntry>,
    i: int,
    beats: spec_fn(CacheEntry, CacheEntry) -> bool,
    eligible: spec_fn(CacheEntry) -> bool,
)
    requires
        0 <= i < t.len(),
    ensures
        pick(t.subrange(0, i + 1), beats, eligible) == match pick(t.subrange(0, i), beats, eligible) {
            Some(j) => if beats(t[i].1, t[j].1) {
                Some(i)
            } else {
                Some(j)
            },
            None => if eligible(t[i].1) {
                Some(i)
            } else {
                None
            },
        },
{
    let s = t.subrange(0, i + 1);
    assert(s.drop_last() =~= t.subrange(0, i));
    lemma_pick_in_range(t.subrange(0, i), beats, eligible);
    match pick(t.subrange(0, i), beats, eligible) {
        Some(j) => {
            assert(s[j] == t[j]);
        },
        None => {},
    }
}

/// The entry with the fewest accesses, as the LFU scan picks it.
fn pick_lfu(t: &KeyedTable<CacheEntry>) -> (r: Option<usize>)
    ensures
        match pick(t@, lfu_beats(), lfu_eligible()) {
            Some(j) => r matches Some(x) && x == j,
            None => r is None,
        },
        r matches Some(j) ==> j < t@.len(),
{
    let mut best: Option<usize> = None;
    let mut min_count: u64 = u64::MAX;
    let mut i: usize = 0;
    while i < t.len()
        invariant
            i <= t@.len(),
            match pick(t@.subrange(0, i as int), lfu_beats(), lfu_eligible()) {
                Some(j) => (best matches Some(x) && x == j) && 0 <= j < i && min_count == t@[j].1.access_count,
                None => best is None && min_count == u64::MAX,
            },
        decreases t@.len() - i,
    {
        proof {
            lemma_pick_step(t@, i as int, lfu_beats(), lfu_eligible());
        }
        let (_k, e) = t.entry_at(i);
        if e.access_count < min_count {
            min_count = e.access_count;
            best = Some(i);
        }
        i = i + 1;
    }
    assert(t@.subrange(0, t@.len() as int) =~= t@);
    best
}

/// The entry created first before `now`, as the TTL scan picks it.
fn pick_ttl(t: &KeyedTable<CacheEntry>, now: Timestamp) -> (r: Option<usize>)
    ensures
        match pick(t@, ttl_beats(), ttl_eligible(now)) {
            Some(j) => r matches Some(x) && x == j,
            None => r is None,
        },
        r matches Some(j) ==> j < t@.len(),
{
    let mut best: Option<usize> = None;
    let mut oldest_time = now;
    let mut i: usize = 0;
    while i < t.len()
        invariant
            i <= t@.len(),
            match pick(t@.subrange(0, i as int), ttl_beats(), ttl_eligible(now)) {
                Some(j) => (best matches Some(x) && x == j) && 0 <= j < i && oldest_time == t@[j].1.created,
                None => best is None && oldest_time == now,
            },
        decreases t@.len() - i,
    {
        proof {
            lemma_pick_step(t@, i as int, ttl_beats(), ttl_eligible(now));
        }
        let (_k, e) = t.entry_at(i);
        if e.created.is_before(&oldest_time) {
            oldest_time = e.created;
            best = Some(i);
        }
        i = i + 1;
    }
    assert(t@.subrange(0, t@.len() as int) =~= t@);
    best
}

/// The largest entry, as the size scan picks it.
fn pick_size(t: &KeyedTable<CacheEntry>) -> (r: Option<usize>)
    ensures
        match pick(t@, size_beats(), size_eligible()) {
            Some(j) => r matches Some(x) && x == j,
            None => r is None,
        },
        r matches Some(j) ==> j < t@.len(),
{
    let mut best: Option<usize> = None;
    let mut max_size: usize = 0;
    let mut i: usize = 0;
    while i < t.len()
        invariant
            i <= t@.len(),
            match pick(t@.subrange(0, i as int), size_beats(), size_eligible()) {
                Some(j) => (best matches Some(x) && x == j) && 0 <= j < i && max_size == t@[j].1.size,
                None => best is None && max_size == 0,
            },
        decreases t@.len() - i,
    {
        proof {
            lemma_pick_step(t@, i as int, size_beats(), size_eligible());
        }
        let (_k, e) = t.entry_at(i);
        if e.size > max_size {
            max_size = e.size;
            best = Some(i);
        }
        i = i + 1;
    }
    assert(t@.subrange(0, t@.len() as int) =~= t@);
    best
}

/// The entries still in force at `now`, in order.
pub open spec fn unexpired(t: Entries<CacheEntry>, now: Timestamp) -> Entries<CacheEntry>
    decreases t.len(),
{
    if t.len() == 0 {
        t
    } else if entry_expired_at(t.last().1, now) {
        unexpired(t.drop_last(), now)
    } else {
        unexpired(t.drop_last(), now).push(t.last())
    }
}

/// The keys of the entries expired at `now`, in order.
pub open spec fn expired_keys(t: Entries<CacheEntry>, now: Timestamp) -> Seq<Seq<char>>
    decreases t.len(),
{
    if t.len() == 0 {
        Seq::empty()
    } else if entry_expired_at(t.last().1, now) {
        expired_keys(t.drop_last(), now).push(t.last().0)
    } else {
        expired_keys(t.drop_last(), now)
    }
}

/// The list after taking out the first occurrence of each key in turn.
pub open spec fn remove_firsts(order: Seq<Seq<char>>, keys: Seq<Seq<char>>) -> Seq<Seq<char>>
    decreases keys.len(),
{
    if keys.len() == 0 {
        order
    } else {
        remove_first(remove_firsts(order, keys.drop_last()), keys.last())
    }
}

/// The partition needs room for an entry of `size` bytes: the size or the
/// count would pass its limit.
pub open spec fn over_limit(p: CachePartition, size: nat) -> bool {
    p.current_size + size > p.max_size || p.current_entries >= p.max_entries
}

/// Every key that occurs among the entries occurs in the access order, so a
/// partition with an empty access order has no entries.
proof fn lemma_empty_order(p: CachePartition)
    requires
        partition_wf(p),
        p.access_order@.len() == 0,
    ensures
        p.entries@.len() == 0,
{
    if p.entries@.len() > 0 {
        assert(table_keys(p.entries@)[0] == p.entries@[0].0);
        assert(table_keys(p.entries@).contains(p.entries@[0].0));
        assert(texts(p.access_order@).contains(p.entries@[0].0));
    }
}

/// An eviction step only takes entries out: whatever remains keeps its value.
proof fn lemma_removal_keeps_values(old: CachePartition, new: CachePartition, now: Timestamp, r: bool, k: Seq<char>)
    requires
        partition_wf(old),
        evict_outcome(old, new, now, r),
    ensures
        table_get(new.entries@, k) is Some ==> table_get(new.entries@, k) == table_get(old.entries@, k),
        new.current_size <= old.current_size,
        new.current_entries <= old.current_entries,
{
    let t = old.entries@;
    if new.entries@ != t {
        let j = if old.eviction_policy is LRU || old.eviction_policy is FIFO {
            index_of_key(t, old.access_order@[0]@) as int
        } else {
            choose|j: int| scan_victim(old, now) == Some(j)
        };
        if !(old.eviction_policy is LRU || old.eviction_policy is FIFO) {
            let ghost v = scan_victim(old, now);
            assert(v is Some);
            match old.eviction_policy {
                EvictionPolicy::LFU => lemma_pick_in_range(t, lfu_beats(), lfu_eligible()),
                EvictionPolicy::TTL => lemma_pick_in_range(t, ttl_beats(), ttl_eligible(now)),
                EvictionPolicy::Size => lemma_pick_in_range(t, size_beats(), size_eligible()),
                _ => {},
            }
        } else {
            lemma_index_of_key_bounds(t, old.access_order@[0]@);
        }
        assert(0 <= j < t.len());
        assert(new.entries@ == t.remove(j));
        crate::table::lemma_get_after_remove_at(t, j, k);
        lemma_sizes_remove(t, j);
    }
}

/// `new` is `old` after adding `entry` under `key` at `now`: entries are
/// evicted, step by step, while there is no room for it and something can
/// be evicted; then it is stored (`r` is the entry it replaces, if that was
/// not evicted) and its key appended to the access order. Room is always
/// made: the eviction stops only with room for the entry or with no entries
/// left, so the limits hold afterwards wherever the entry fits them alone.
pub open spec fn entry_added(
    old: CachePartition,
    new: CachePartition,
    key: Seq<char>,
    entry: CacheEntry,
    now: Timestamp,
    r: Option<CacheEntry>,
) -> bool {
    let (t1, o1) = make_room(
        old.eviction_policy,
        old.entries@,
        texts(old.access_order@),
        now,
        entry.size as nat,
        old.max_size as nat,
        old.max_entries as nat,
    );
    &&& new.entries@ == table_insert(t1, key, entry)
    &&& r == table_get(t1, key)
    &&& texts(new.access_order@) == o1.push(key)
    &&& room_made(t1, entry.size as nat, old.max_size as nat, old.max_entries as nat)
    &&& room_made(t1, entry.size as nat, old.max_size as nat, old.max_entries as nat)
        && entry.size <= old.max_size && old.max_entries >= 1 ==> new.current_size
        <= new.max_size && new.current_entries <= new.max_entries
}

/// One eviction step of a partition is the step on its entries and access
/// order: when it changes anything, the result is the step's; when not,
/// there is no step to take.
proof fn lemma_outcome_is_step(old: CachePartition, new: CachePartition, now: Timestamp, r: bool)
    requires
        partition_wf(old),
        evict_outcome(old, new, now, r),
    ensures
        r ==> evict_step(old.eviction_policy, old.entries@, texts(old.access_order@), now) == Some(
            (new.entries@, texts(new.access_order@)),
        ),
        !r ==> evict_step(old.eviction_policy, old.entries@, texts(old.access_order@), now) is None,
{
    let t = old.entries@;
    if !(old.eviction_policy is LRU || old.eviction_policy is FIFO) {
        match old.eviction_policy {
            EvictionPolicy::LFU => lemma_pick_in_range(t, lfu_beats(), lfu_eligible()),
            EvictionPolicy::TTL => lemma_pick_in_range(t, ttl_beats(), ttl_eligible(now)),
            EvictionPolicy::Size => lemma_pick_in_range(t, size_beats(), size_eligible()),
            _ => {},
        }
    }
}

/// Storing one entry adds at most its size to the total and at most one to
/// the count; into an empty table it gives exactly that entry.
proof fn lemma_insert_bounds(t: Entries<CacheEntry>, k: Seq<char>, e: CacheEntry)
    ensures
        entry_sizes(table_insert(t, k, e)) <= entry_sizes(t) + e.size,
        table_insert(t, k, e).len() <= t.len() + 1,
{
    lemma_index_of_key_bounds(t, k);
    let i = index_of_key(t, k);
    if i < t.len() {
        lemma_sizes_update(t, i as int, (k, e));
    } else {
        assert(t.push((k, e)).drop_last() =~= t);
    }
}

impl CachePartition {
    /// Create new cache partition
    pub fn new(name: String, max_size: usize, max_entries: usize, eviction_policy: EvictionPolicy) -> (r: Self)
        ensures
            partition_wf(r),
            r.name == name,
            r.max_size == max_size,
            r.max_entries == max_entries,
            r.eviction_policy == eviction_policy,
            r.current_size == 0,
            r.current_entries == 0,
            r.entries@.len() == 0,
            r.access_order@.len() == 0,
    {
        let r = Self {
            name,
            max_size,
            current_size: 0,
            max_entries,
            current_entries: 0,
            eviction_policy,
            entries: KeyedTable::new(),
            access_order: VecDeque::new(),
        };
        assert(table_keys(r.entries@) =~= Seq::<Seq<char>>::empty());
        r
    }

    /// Remove entry from partition, with the first occurrence of its key in
    /// the access order.
    pub fn remove_entry(&mut self, key: &str) -> (r: Option<CacheEntry>)
        requires
            partition_wf(*old(self)),
        ensures
            partition_wf(*final(self)),
            same_settings(*final(self), *old(self)),
            r == table_get(old(self).entries@, key@),
            final(self).entries@ == table_remove(old(self).entries@, key@),
            r is Some ==> texts(final(self).access_order@) == remove_first(texts(old(self).access_order@), key@),
            r is None ==> final(self).access_order@ == old(self).access_order@,
    {
        let i = self.entries.position(key);
        if i < self.entries.len() {
            let ghost t = self.entries@;
            let ghost o = texts(self.access_order@);
            let (_k, entry) = self.entries.remove_at(i);
            proof {
                lemma_sizes_remove(t, i as int);
            }
            self.current_size = self.current_size - entry.size;
            self.current_entries = self.current_entries - 1;
            remove_from_order(&mut self.access_order, key);
            proof {
                assert forall|k: Seq<char>| #[trigger] table_keys(self.entries@).contains(k) implies texts(
                    self.access_order@,
                ).contains(k) by {
                    let w = choose|w: int| 0 <= w < table_keys(self.entries@).len() && table_keys(self.entries@)[w] == k;
                    let w2 = if w < i { w } else { w + 1 };
                    assert(self.entries@[w] == t[w2]);
                    assert(table_keys(t)[w2] == k);
                    assert(table_keys(t).contains(k));
                    assert(k != key@);
                    lemma_remove_first_keeps(o, key@, k);
                }
            }
            Some(entry)
        } else {
            None
        }
    }

    /// Evict entry based on policy, at `now` (under LFU, TTL and Size the first
    /// entry where none is eligible); tells whether anything changed.
    fn evict_entry(&mut self, now: Timestamp) -> (r: bool)
        requires
            partition_wf(*old(self)),
        ensures
            evict_outcome(*old(self), *final(self), now, r),
            r ==> final(self).entries@.len() + final(self).access_order@.len() < old(self).entries@.len()
                + old(self).access_order@.len(),
    {
        match self.eviction_policy {
            EvictionPolicy::LRU | EvictionPolicy::FIFO => {
                let r = self.evict_front();
                assert(partition_wf(*self));
                assert(old(self).eviction_policy is LRU || old(self).eviction_policy is FIFO);
                r
            },
            EvictionPolicy::LFU => {
                let victim = first_if_none(pick_lfu(&self.entries), self.entries.len());
                self.evict_picked(victim)
            },
            EvictionPolicy::TTL => {
                let victim = first_if_none(pick_ttl(&self.entries, now), self.entries.len());
                self.evict_picked(victim)
            },
            EvictionPolicy::Size => {
                let victim = first_if_none(pick_size(&self.entries), self.entries.len());
                self.evict_picked(victim)
            },
        }
    }

    /// Evicts the key at the front of the access order.
    fn evict_front(&mut self) -> (r: bool)
        requires
            partition_wf(*old(self)),
        ensures
            partition_wf(*final(self)),
            same_settings(*final(self), *old(self)),
            old(self).access_order@.len() == 0 ==> !r && final(self).entries@ == old(self).entries@
                && final(self).access_order@ == old(self).access_order@,
            old(self).access_order@.len() > 0 ==> {
                &&& r
                &&& texts(final(self).access_order@) == texts(old(self).access_order@).drop_first()
                &&& final(self).entries@ == table_remove(old(self).entries@, old(self).access_order@[0]@)
            },
            r ==> final(self).entries@.len() + final(self).access_order@.len() < old(self).entries@.len()
                + old(self).access_order@.len(),
    {
        let ghost o = texts(self.access_order@);
        let ghost t = self.entries@;
        match self.access_order.pop_front() {
            Some(key) => {
                assert(texts(self.access_order@) =~= o.drop_first());
                let i = self.entries.position(key.as_str());
                if i < self.entries.len() {
                    let (_k, entry) = self.entries.remove_at(i);
                    proof {
                        lemma_sizes_remove(t, i as int);
                    }
                    self.current_size = self.current_size - entry.size;
                    self.current_entries = self.current_entries - 1;
                }
                proof {
                    assert forall|k: Seq<char>| #[trigger] table_keys(self.entries@).contains(k) implies texts(
                        self.access_order@,
                    ).contains(k) by {
                        let w = choose|w: int| 0 <= w < table_keys(self.entries@).len() && table_keys(self.entries@)[w] == k;
                        let w2 = if i < t.len() && w >= i { w + 1 } else { w };
                        assert(self.entries@[w] == t[w2]);
                        assert(table_keys(t)[w2] == k);
                        assert(table_keys(t).contains(k));
                        let v = choose|v: int| 0 <= v < o.len() && o[v] == k;
                        if v == 0 {
                            assert(o[0] == key@);
                            if i < t.len() {
                                assert(t[i as int].0 == key@);
                            } else {
                                lemma_index_of_key_bounds(t, key@);
                                assert(t[w2].0 != key@);
                            }
                        }
                        assert(texts(self.access_order@)[v - 1] == k);
                    }
                }
                true
            },
            None => false,
        }
    }

    /// Evicts the entry at the picked position, if any.
    fn evict_picked(&mut self, victim: Option<usize>) -> (r: bool)
        requires
            partition_wf(*old(self)),
            victim matches Some(j) ==> j < old(self).entries@.len(),
        ensures
            partition_wf(*final(self)),
            same_settings(*final(self), *old(self)),
            match victim {
                Some(j) => {
                    &&& r
                    &&& final(self).entries@ == old(self).entries@.remove(j as int)
                    &&& texts(final(self).access_order@) == remove_first(
                        texts(old(self).access_order@),
                        old(self).entries@[j as int].0,
                    )
                },
                None => !r && final(self).entries@ == old(self).entries@ && final(self).access_order@ == old(
                    self,
                ).access_order@,
            },
            r ==> final(self).entries@.len() + final(self).access_order@.len() < old(self).entries@.len()
                + old(self).access_order@.len(),
    {
        match victim {
            Some(j) => {
                let (k, _e) = self.entries.entry_at(j);
                let key = copy_string(k);
                let ghost t = self.entries@;
                let _n = self.entries.len();
                proof {
                    lemma_index_of_key_bounds(t, key@);
                    assert(index_of_key(t, key@) == j);
                }
                let ghost o = texts(self.access_order@);
                let _removed = self.remove_entry(key.as_str());
                proof {
                    lemma_first_pos_props(o, key@);
                    assert(remove_first(o, key@).len() <= o.len());
                    assert(texts(self.access_order@).len() == self.access_order@.len());
                    assert(o.len() == old(self).access_order@.len());
                    assert(self.entries@.len() + 1 == old(self).entries@.len());
                }
                true
            },
            None => false,
        }
    }

    /// Add entry to partition at `now`: first evicts, by the partition's
    /// policy, while the new entry would pass the size or count limit, then
    /// stores the entry (giving back the one it replaces, if that was not
    /// evicted) and appends the key to the access order.
    #[verifier::spinoff_prover]
    #[verifier::rlimit(40)]
    pub fn add_entry_at(&mut self, key: String, entry: CacheEntry, now: Timestamp) -> (r: Option<CacheEntry>)
        requires
            partition_wf(*old(self)),
            old(self).current_size + entry.size <= usize::MAX,
            old(self).current_entries < usize::MAX,
        ensures
            partition_wf(*final(self)),
            same_settings(*final(self), *old(self)),
            table_get(final(self).entries@, key@) == Some(entry),
            forall|k: Seq<char>|
                k != key@ && (#[trigger] table_get(final(self).entries@, k)) is Some ==> table_get(final(self).entries@, k)
                    == table_get(old(self).entries@, k),
            r matches Some(e) ==> table_get(old(self).entries@, key@) == Some(e),
            texts(final(self).access_order@).last() == key@,
            !over_limit(*old(self), entry.size as nat) ==> {
                &&& final(self).entries@ == table_insert(old(self).entries@, key@, entry)
                &&& r == table_get(old(self).entries@, key@)
                &&& texts(final(self).access_order@) == texts(old(self).access_order@).push(key@)
            },
            entry_added(*old(self), *final(self), key@, entry, now, r),
            entry.size <= old(self).max_size && old(self).max_entries >= 1 ==> final(self).current_size
                <= final(self).max_size && final(self).current_entries <= final(self).max_entries,
    {
        let ghost goal = make_room(
            old(self).eviction_policy,
            old(self).entries@,
            texts(old(self).access_order@),
            now,
            entry.size as nat,
            old(self).max_size as nat,
            old(self).max_entries as nat,
        );
        let entry_size = entry.size;
        let mut stuck = false;
        while !stuck && (self.current_size + entry_size > self.max_size || self.current_entries >= self.max_entries)
            && self.entries.len() > 0
            invariant
                partition_wf(*self),
                same_settings(*self, *old(self)),
                self.current_size <= old(self).current_size,
                self.current_entries <= old(self).current_entries,
                old(self).current_size + entry_size <= usize::MAX,
                old(self).current_entries < usize::MAX,
                entry_size == entry.size,
                forall|k: Seq<char>|
                    (#[trigger] table_get(self.entries@, k)) is Some ==> table_get(self.entries@, k) == table_get(
                        old(self).entries@,
                        k,
                    ),
                !over_limit(*old(self), entry_size as nat) ==> self.entries@ == old(self).entries@
                    && self.access_order@ == old(self).access_order@,
                stuck ==> ((self.eviction_policy is LRU || self.eviction_policy is FIFO) ==> self.entries@.len()
                    == 0),
                stuck ==> evict_step(self.eviction_policy, self.entries@, texts(self.access_order@), now) is None,
                make_room(
                    self.eviction_policy,
                    self.entries@,
                    texts(self.access_order@),
                    now,
                    entry_size as nat,
                    self.max_size as nat,
                    self.max_entries as nat,
                ) == goal,
                goal == make_room(
                    old(self).eviction_policy,
                    old(self).entries@,
                    texts(old(self).access_order@),
                    now,
                    entry.size as nat,
                    old(self).max_size as nat,
                    old(self).max_entries as nat,
                ),
            decreases self.entries@.len() + self.access_order@.len() + if stuck {
                0int
            } else {
                1int
            },
        {
            let ghost before = *self;
            let evicted = self.evict_entry(now);
            proof {
                if !evicted {
                    if self.eviction_policy is LRU || self.eviction_policy is FIFO {
                        lemma_empty_order(*self);
                    }
                }
                assert forall|k: Seq<char>| (#[trigger] table_get(self.entries@, k)) is Some implies table_get(
                    self.entries@,
                    k,
                ) == table_get(before.entries@, k) by {
                    lemma_removal_keeps_values(before, *self, now, evicted, k);
                }
                lemma_removal_keeps_values(before, *self, now, evicted, Seq::empty());
                lemma_outcome_is_step(before, *self, now, evicted);
                lemma_evict_step_shrinks(before.eviction_policy, before.entries@, texts(before.access_order@), now);
            }
            if !evicted {
                stuck = true;
            }
        }
        let ghost mid = *self;
        proof {
            assert(goal == (mid.entries@, texts(mid.access_order@)));
            lemma_make_room_stops(
                old(self).eviction_policy,
                old(self).entries@,
                texts(old(self).access_order@),
                now,
                entry.size as nat,
                old(self).max_size as nat,
                old(self).max_entries as nat,
            );
            if (mid.eviction_policy is LRU || mid.eviction_policy is FIFO) && evict_step(
                mid.eviction_policy,
                mid.entries@,
                texts(mid.access_order@),
                now,
            ) is None {
                lemma_empty_order(mid);
            }
            match mid.eviction_policy {
                EvictionPolicy::LFU => lemma_pick_in_range(mid.entries@, lfu_beats(), lfu_eligible()),
                EvictionPolicy::TTL => lemma_pick_in_range(mid.entries@, ttl_beats(), ttl_eligible(now)),
                EvictionPolicy::Size => lemma_pick_in_range(mid.entries@, size_beats(), size_eligible()),
                _ => {},
            }
            lemma_insert_bounds(mid.entries@, key@, entry);
        }
        let i = self.entries.position(key.as_str());
        let ghost t = self.entries@;
        let mut old_entry: Option<CacheEntry> = None;
        if i < self.entries.len() {
            let (k, previous) = self.entries.remove_at(i);
            proof {
                lemma_sizes_remove(t, i as int);
                crate::table::lemma_get_after_remove_at(t, i as int, key@);
            }
            self.entries.insert_at(i, k, entry);
            proof {
                assert(self.entries@ =~= t.update(i as int, (key@, entry)));
                lemma_sizes_update(t, i as int, (key@, entry));
            }
            self.current_size = self.current_size - previous.size + entry_size;
            old_entry = Some(previous);
        } else {
            proof {
                crate::table::lemma_get_iff_key(t, key@);
                lemma_insert_new_key(t, key@, entry);
            }
            self.entries.insert(copy_string(&key), entry);
            assert(self.entries@.drop_last() =~= t);
            self.current_entries = self.current_entries + 1;
            self.current_size = self.current_size + entry_size;
        }
        proof {
            crate::table::lemma_get_after_insert(t, key@, entry);
            assert(self.entries@ == table_insert(t, key@, entry));
            crate::table::lemma_insert_keeps_distinct(t, key@, entry);
        }
        self.access_order.push_back(key);
        proof {
            assert(texts(self.access_order@) =~= texts(mid.access_order@).push(key@));
            assert forall|k: Seq<char>| #[trigger] table_keys(self.entries@).contains(k) implies texts(
                self.access_order@,
            ).contains(k) by {
                if k == key@ {
                    assert(texts(self.access_order@).last() == k);
                } else {
                    crate::table::lemma_get_iff_key(self.entries@, k);
                    crate::table::lemma_get_other_after_insert(t, key@, entry, k);
                    crate::table::lemma_get_iff_key(t, k);
                    let w = choose|w: int| 0 <= w < texts(mid.access_order@).len() && texts(mid.access_order@)[w] == k;
                    assert(texts(self.access_order@)[w] == k);
                }
            }
            assert forall|k: Seq<char>|
                k != key@ && (#[trigger] table_get(self.entries@, k)) is Some implies table_get(self.entries@, k)
                    == table_get(old(self).entries@, k) by {
                crate::table::lemma_get_other_after_insert(t, key@, entry, k);
            }
        }
        old_entry
    }

    /// Add entry to partition, at the moment of the call.
    pub fn add_entry(&mut self, key: String, entry: CacheEntry) -> (r: Option<CacheEntry>)
        requires
            partition_wf(*old(self)),
            old(self).current_size + entry.size <= usize::MAX,
            old(self).current_entries < usize::MAX,
        ensures
            partition_wf(*final(self)),
            same_settings(*final(self), *old(self)),
            table_get(final(self).entries@, key@) == Some(entry),
            forall|k: Seq<char>|
                k != key@ && (#[trigger] table_get(final(self).entries@, k)) is Some ==> table_get(final(self).entries@, k)
                    == table_get(old(self).entries@, k),
            r matches Some(e) ==> table_get(old(self).entries@, key@) == Some(e),
            texts(final(self).access_order@).last() == key@,
            !over_limit(*old(self), entry.size as nat) ==> {
                &&& final(self).entries@ == table_insert(old(self).entries@, key@, entry)
                &&& r == table_get(old(self).entries@, key@)
                &&& texts(final(self).access_order@) == texts(old(self).access_order@).push(key@)
            },
            exists|now: Timestamp| entry_added(*old(self), *final(self), key@, entry, now, r),
            entry.size <= old(self).max_size && old(self).max_entries >= 1 ==> final(self).current_size
                <= final(self).max_size && final(self).current_entries <= final(self).max_entries,
    {
        self.add_entry_at(key, entry, Timestamp::now())
    }

    /// Get entry from partition at `now`: records the access and, under LRU,
    /// moves the key to the back of the access order.
    pub fn get_entry_at(&mut self, key: &str, now: Timestamp) -> (r: Option<&CacheEntry>)
        requires
            partition_wf(*old(self)),
            table_get(old(self).entries@, key@) matches Some(e) ==> e.access_count < u64::MAX,
        ensures
            partition_wf(*final(self)),
            same_settings(*final(self), *old(self)),
            match table_get(old(self).entries@, key@) {
                Some(e) => {
                    &&& r matches Some(x) && *x == (CacheEntry {
                        access_count: (e.access_count + 1) as u64,
                        last_accessed: now,
                        ..e
                    })
                    &&& final(self).entries@ == table_insert(old(self).entries@, key@, *r->0)
                    &&& old(self).eviction_policy is LRU ==> texts(final(self).access_order@) == remove_first(
                        texts(old(self).access_order@),
                        key@,
                    ).push(key@)
                    &&& !(old(self).eviction_policy is LRU) ==> final(self).access_order@ == old(self).access_order@
                },
                None => r is None && final(self).entries@ == old(self).entries@ && final(self).access_order@ == old(
                    self,
                ).access_order@,
            },
    {
        let i = self.entries.position(key);
        if i < self.entries.len() {
            let ghost t = self.entries@;
            let ghost o = texts(self.access_order@);
            let (k, mut e) = self.entries.remove_at(i);
            proof {
                crate::table::lemma_get_after_remove_at(t, i as int, key@);
                lemma_index_of_key_bounds(t, key@);
            }
            e.update_access_at(now);
            let ghost e2 = e;
            self.entries.insert_at(i, k, e);
            proof {
                assert(self.entries@ =~= t.update(i as int, (key@, e2)));
                lemma_sizes_update(t, i as int, (key@, e2));
                assert(self.entries@ == table_insert(t, key@, e2));
                crate::table::lemma_insert_keeps_distinct(t, key@, e2);
                assert(table_keys(self.entries@) =~= table_keys(t));
                crate::table::lemma_get_after_insert(t, key@, e2);
                assert(table_get(t, key@) == Some(t[i as int].1));
            }
            if self.eviction_policy == EvictionPolicy::LRU {
                remove_from_order(&mut self.access_order, key);
                self.access_order.push_back(str_to_string(key));
                proof {
                    let o2 = remove_first(o, key@);
                    assert(texts(self.access_order@) =~= o2.push(key@));
                    assert forall|kk: Seq<char>| #[trigger] table_keys(self.entries@).contains(kk) implies texts(
                        self.access_order@,
                    ).contains(kk) by {
                        if kk == key@ {
                            assert(texts(self.access_order@).last() == kk);
                        } else {
                            lemma_remove_first_keeps(o, key@, kk);
                            let w = choose|w: int| 0 <= w < o2.len() && o2[w] == kk;
                            assert(texts(self.access_order@)[w] == kk);
                        }
                    }
                }
            }
            self.entries.get(key)
        } else {
            proof {
                lemma_index_of_key_bounds(self.entries@, key@);
            }
            None
        }
    }

    /// Get entry from partition, at the moment of the call.
    pub fn get_entry(&mut self, key: &str) -> (r: Option<&CacheEntry>)
        requires
            partition_wf(*old(self)),
            table_get(old(self).entries@, key@) matches Some(e) ==> e.access_count < u64::MAX,
        ensures
            partition_wf(*final(self)),
            same_settings(*final(self), *old(self)),
            match table_get(old(self).entries@, key@) {
                Some(e) => {
                    &&& r matches Some(x) && *x == (CacheEntry {
                        access_count: (e.access_count + 1) as u64,
                        last_accessed: x.last_accessed,
                        ..e
                    })
                    &&& final(self).entries@ == table_insert(old(self).entries@, key@, *r->0)
                    &&& old(self).eviction_policy is LRU ==> texts(final(self).access_order@) == remove_first(
                        texts(old(self).access_order@),
                        key@,
                    ).push(key@)
                    &&& !(old(self).eviction_policy is LRU) ==> final(self).access_order@ == old(self).access_order@
                },
                None => r is None && final(self).entries@ == old(self).entries@ && final(self).access_order@ == old(
                    self,
                ).access_order@,
            },
    {
        self.get_entry_at(key, Timestamp::now())
    }

    /// Clean expired entries at `now`: every entry expired at `now` leaves,
    /// with the first occurrence of its key in the access order; gives the
    /// number removed.
    pub fn clean_expired_at(&mut self, now: Timestamp) -> (r: usize)
        requires
            partition_wf(*old(self)),
        ensures
            partition_wf(*final(self)),
            same_settings(*final(self), *old(self)),
            final(self).entries@ == unexpired(old(self).entries@, now),
            r == old(self).entries@.len() - final(self).entries@.len(),
            r == expired_keys(old(self).entries@, now).len(),
            texts(final(self).access_order@) == remove_firsts(
                texts(old(self).access_order@),
                expired_keys(old(self).entries@, now),
            ),
    {
        let ghost t = self.entries@;
        let ghost o = texts(self.access_order@);
        let ghost mut j: int = 0;
        let _n0 = self.entries.len();
        let mut count: usize = 0;
        let mut i: usize = 0;
        assert(t.subrange(0, 0) =~= Seq::<(Seq<char>, CacheEntry)>::empty());
        assert(t.subrange(0, t.len() as int) =~= t);
        while i < self.entries.len()
            invariant
                partition_wf(*self),
                same_settings(*self, *old(self)),
                0 <= j <= t.len(),
                t.len() <= usize::MAX,
                t == old(self).entries@,
                o == texts(old(self).access_order@),
                self.entries@ == unexpired(t.subrange(0, j), now) + t.subrange(j, t.len() as int),
                i == unexpired(t.subrange(0, j), now).len(),
                count == expired_keys(t.subrange(0, j), now).len(),
                count + i == j,
                texts(self.access_order@) == remove_firsts(o, expired_keys(t.subrange(0, j), now)),
            decreases t.len() - j,
        {
            let ghost pre = t.subrange(0, j);
            let ghost next = t.subrange(0, j + 1);
            proof {
                assert(next.drop_last() =~= pre);
                assert(next.last() == t[j]);
                assert(self.entries@[i as int] == t[j]);
            }
            let (k, e) = self.entries.entry_at(i);
            if e.is_expired_at(now) {
                let key = copy_string(k);
                let ghost cur = self.entries@;
                let _n = self.entries.len();
                proof {
                    lemma_index_of_key_bounds(cur, key@);
                    assert(index_of_key(cur, key@) == i);
                }
                let _removed = self.remove_entry(key.as_str());
                count = count + 1;
                proof {
                    assert(self.entries@ =~= unexpired(next, now) + t.subrange(j + 1, t.len() as int));
                    let ks = expired_keys(next, now);
                    assert(ks == expired_keys(pre, now).push(key@));
                    assert(ks.drop_last() =~= expired_keys(pre, now));
                }
            } else {
                i = i + 1;
                proof {
                    assert(self.entries@ =~= unexpired(next, now) + t.subrange(j + 1, t.len() as int));
                }
            }
            proof {
                j = j + 1;
            }
        }
        proof {
            assert(j == t.len());
            assert(t.subrange(j, t.len() as int) =~= Seq::<(Seq<char>, CacheEntry)>::empty());
            assert(self.entries@ =~= unexpired(t, now));
        }
        count
    }

    /// Clean expired entries, at the moment of the call.
    pub fn clean_expired(&mut self) -> (r: usize)
        requires
            partition_wf(*old(self)),
        ensures
            partition_wf(*final(self)),
            same_settings(*final(self), *old(self)),
            exists|now: Timestamp| {
                &&& final(self).entries@ == unexpired(old(self).entries@, now)
                &&& r == expired_keys(old(self).entries@, now).len()
                &&& texts(final(self).access_order@) == remove_firsts(
                    texts(old(self).access_order@),
                    expired_keys(old(self).entries@, now),
                )
            },
            r == old(self).entries@.len() - final(self).entries@.len(),
    {
        self.clean_expired_at(Timestamp::now())
    }
}

/// Cache warming entry
#[derive(Debug, Clone)]
pub struct CacheWarmingEntry {
    /// URL to warm
    pub url: String,
    /// Priority (higher = more important)
    pub priority: u8,
    /// Expected content type
    pub expected_content_type: Option<String>,
    /// Time to live
    pub ttl: Option<Duration>,
    /// Created time
    pub created: Timestamp,
}

#[verifier::external_type_specification]
#[verifier::external_body]
pub struct ExPathBuf(std::path::PathBuf);

/// Cache configuration
#[derive(Debug, Clone)]
pub struct CacheConfig {
    /// Maximum total size in bytes
    pub max_total_size: usize,
    /// Maximum memory size in bytes
    pub max_memory_size: usize,
    /// Maximum disk size in bytes
    pub max_disk_size: usize,
    /// Default TTL
    pub default_ttl: Duration,
    /// Enable memory cache
    pub enable_memory_cache: bool,
    /// Enable disk cache
    pub enable_disk_cache: bool,
    /// Enable cache warming
    pub enable_cache_warming: bool,
    /// Enable analytics
    pub enable_analytics: bool,
    /// Compression threshold
    pub compression_threshold: usize,
    /// Eviction policy
    pub default_eviction_policy: EvictionPolicy,
    /// Partition by domain
    pub partition_by_domain: bool,
    /// Cache directory
    pub cache_directory: Option<std::path::PathBuf>,
}

impl Default for CacheConfig {
    /// 100 MB in all, 50 MB in memory, 500 MB on disk, an hour's TTL, memory
    /// and disk caches and analytics on, warming off, compression from 1 KB,
    /// LRU eviction, partitioned by domain, in the default directory.
    fn default() -> (r: Self)
        ensures
            r.max_total_size == 100 * 1024 * 1024,
            r.max_memory_size == 50 * 1024 * 1024,
            r.max_disk_size == 500 * 1024 * 1024,
            r.default_ttl@ == 3600nat * 1_000_000_000,
            r.enable_memory_cache,
            r.enable_disk_cache,
            !r.enable_cache_warming,
            r.enable_analytics,
            r.compression_threshold == 1024,
            r.default_eviction_policy == EvictionPolicy::LRU,
            r.partition_by_domain,
            r.cache_directory is None,
    {
        Self {
            max_total_size: 100 * 1024 * 1024,
            max_memory_size: 50 * 1024 * 1024,
            max_disk_size: 500 * 1024 * 1024,
            default_ttl: Duration::from_secs(3600),
            enable_memory_cache: true,
            enable_disk_cache: true,
            enable_cache_warming: false,
            enable_analytics: true,
            compression_threshold: 1024,
            default_eviction_policy: EvictionPolicy::LRU,
            partition_by_domain: true,
            cache_directory: None,
        }
    }
}

/// The host that parsed URL parts name, or `unknown` where the URL did not
/// parse or has no host.
pub open spec fn domain_of(parts: std::result::Result<(Seq<char>, Option<Seq<char>>, Option<u16>), Seq<char>>) -> Seq<
    char,
> {
    match parts {
        Ok((_, Some(h), _)) => h,
        _ => "unknown"@,
    }
}

/// The domain under which a parsed URL is cached.
pub fn domain_from_parts(parts: std::result::Result<UrlParts, String>) -> (r: String)
    ensures
        r@ == domain_of(parts_view(parts)),
{
    match parts {
        Ok(p) => match p.host {
            Some(h) => h,
            None => str_to_string("unknown"),
        },
        Err(_) => str_to_string("unknown"),
    }
}

/// Extract domain from URL: the host that the URL parser finds, or `unknown`.
pub fn extract_domain(url: &str) -> (r: String)
    ensures
        r@ == domain_of(url_components(url@)),
{
    let parts = parse_url(url);
    domain_from_parts(parts)
}

/// A new partition for one domain, as the memory cache makes it: a tenth of
/// the memory budget, at most a thousand entries, under the configured policy.
pub fn domain_partition(domain: &str, config: &CacheConfig) -> (r: CachePartition)
    ensures
        partition_wf(r),
        r.name@ == domain@,
        r.max_size == config.max_memory_size / 10,
        r.max_entries == 1000,
        r.eviction_policy == config.default_eviction_policy,
        r.current_size == 0,
        r.current_entries == 0,
        r.entries@.len() == 0,
        r.access_order@.len() == 0,
{
    CachePartition::new(str_to_string(domain), config.max_memory_size / 10, 1000, config.default_eviction_policy)
}

/// The bytes held over all partitions of a table.
pub open spec fn partitions_size(t: Entries<CachePartition>) -> nat
    decreases t.len(),
{
    if t.len() == 0 {
        0
    } else {
        partitions_size(t.drop_last()) + t.last().1.current_size as nat
    }
}

/// The entries held over all partitions of a table.
pub open spec fn partitions_entries(t: Entries<CachePartition>) -> nat
    decreases t.len(),
{
    if t.len() == 0 {
        0
    } else {
        partitions_entries(t.drop_last()) + t.last().1.current_entries as nat
    }
}

/// The totals over the first partitions are at most those over all of them.
proof fn lemma_partition_prefix(t: Entries<CachePartition>, i: int)
    requires
        0 <= i <= t.len(),
    ensures
        partitions_size(t.take(i)) <= partitions_size(t),
        partitions_entries(t.take(i)) <= partitions_entries(t),
    decreases t.len(),
{
    if i == t.len() {
        assert(t.take(i) =~= t);
    } else {
        lemma_partition_prefix(t.drop_last(), i);
        assert(t.take(i) =~= t.drop_last().take(i));
    }
}

/// The total size and the total number of entries over all partitions, or
/// `None` where either total does not fit in a `usize`.
pub fn partition_totals(partitions: &KeyedTable<CachePartition>) -> (r: Option<(usize, usize)>)
    ensures
        r is Some <==> (partitions_size(partitions@) <= usize::MAX && partitions_entries(partitions@)
            <= usize::MAX),
        r matches Some((size, count)) ==> size == partitions_size(partitions@) && count == partitions_entries(
            partitions@,
        ),
{
    let n = partitions.len();
    let ghost t = partitions@;
    let mut size: usize = 0;
    let mut count: usize = 0;
    let mut i: usize = 0;
    while i < n
        invariant
            i <= n,
            n == t.len(),
            t == partitions@,
            size == partitions_size(t.take(i as int)),
            count == partitions_entries(t.take(i as int)),
        decreases n - i,
    {
        let (_, p) = partitions.entry_at(i);
        proof {
            assert(t.take(i + 1).drop_last() =~= t.take(i as int));
            assert(t.take(i + 1).last() == t[i as int]);
            lemma_partition_prefix(t, i + 1);
        }
        if usize::MAX - size < p.current_size || usize::MAX - count < p.current_entries {
            return None;
        }
        size = size + p.current_size;
        count = count + p.current_entries;
        i = i + 1;
    }
    proof {
        assert(t.take(n as int) =~= t);
    }
    Some((size, count))
}

/// The lower-case hexadecimal digit for a value below sixteen.
pub open spec fn hex_digit_char(v: u8) -> char {
    if v < 10 {
        ((v + 48) as u8) as char
    } else {
        ((v + 87) as u8) as char
    }
}

/// Bytes written in lower-case hexadecimal, two digits each.
pub open spec fn hex_text(bytes: Seq<u8>) -> Seq<char>
    decreases bytes.len(),
{
    if bytes.len() == 0 {
        Seq::empty()
    } else {
        hex_text(bytes.drop_last()) + seq![hex_digit_char(bytes.last() / 16), hex_digit_char(bytes.last() % 16)]
    }
}

/// The lower-case hexadecimal digit for a value below sixteen.
fn hex_digit_of(v: u8) -> (r: char)
    requires
        v < 16,
    ensures
        r == hex_digit_char(v),
{
    if v < 10 {
        (v + 48) as char
    } else {
        (v + 87) as char
    }
}

/// The name of the file that holds a URL's data in the disk cache: the
/// first eight hexadecimal digits of the SHA-256 digest of the URL.
pub fn data_file_name(url: &str) -> (r: String)
    ensures
        r@ == hex_text(sha256_digest(url.spec_bytes()).take(4)),
{
    let digest = sha256(url.as_bytes());
    let mut name = String::new();
    let mut i: usize = 0;
    while i < 4
        invariant
            i <= 4,
            digest@.len() == 32,
            digest@ == sha256_digest(url.spec_bytes()),
            name@ == hex_text(digest@.take(i as int)),
        decreases 4 - i,
    {
        let b = digest[i];
        push_char(&mut name, hex_digit_of(b / 16));
        push_char(&mut name, hex_digit_of(b % 16));
        assert(digest@.take(i + 1).drop_last() =~= digest@.take(i as int));
        assert(name@ =~= hex_text(digest@.take(i + 1)));
        i = i + 1;
    }
    name
}

} // verus!
