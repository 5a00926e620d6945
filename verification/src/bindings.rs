//! DOM bindings: interfaces registered by name with their methods and
//! properties, and caches that remember each method and property looked up,
//! with the number of times it was used.

use vstd::prelude::*;
use crate::error::{Error, Result};
use crate::table::{KeyedTable, Entries, table_get, table_insert, lemma_get_after_insert};
use crate::text::{concat_str, push_str, str_to_string};
use crate::time::Timestamp;
use crate::webidl::WebIDLType;

verus! {

/// Method binding
#[derive(Debug, Clone)]
pub struct MethodBinding {
    /// Method name
    pub name: String,
    /// Native function pointer
    pub native_function: String,
    /// Argument types
    pub argument_types: Vec<WebIDLType>,
    /// Return type
    pub return_type: WebIDLType,
    /// Whether the method is static
    pub static_method: bool,
    /// Method documentation
    pub documentation: Option<String>,
}

/// Property binding
#[derive(Debug, Clone)]
pub struct PropertyBinding {
    /// Property name
    pub name: String,
    /// Property type
    pub property_type: WebIDLType,
    /// Getter function
    pub getter: Option<String>,
    /// Setter function
    pub setter: Option<String>,
    /// Whether the property is read-only
    pub readonly: bool,
    /// Property documentation
    pub documentation: Option<String>,
}

/// Interface binding
#[derive(Debug)]
pub struct InterfaceBinding {
    /// Interface name
    pub name: String,
    /// Constructor function
    pub constructor: Option<String>,
    /// Method bindings
    pub methods: KeyedTable<MethodBinding>,
    /// Property bindings
    pub properties: KeyedTable<PropertyBinding>,
    /// Prototype chain
    pub prototype: Option<String>,
}

/// Method cache entry
#[derive(Debug, Clone)]
pub struct MethodCacheEntry {
    /// Method name
    pub method_name: String,
    /// Interface name
    pub interface_name: String,
    /// Cached function pointer
    pub cached_function: String,
    /// Hit count
    pub hit_count: u64,
    /// Last access time
    pub last_access: Timestamp,
}

/// Property cache entry
#[derive(Debug, Clone)]
pub struct PropertyCacheEntry {
    /// Property name
    pub property_name: String,
    /// Interface name
    pub interface_name: String,
    /// Cached getter/setter
    pub cached_accessor: String,
    /// Hit count
    pub hit_count: u64,
    /// Last access time
    pub last_access: Timestamp,
}

/// Whether a lookup was answered from a cache or made a new cache entry.
#[derive(Debug, Clone, Copy, PartialEq, Eq, Structural)]
pub enum CacheLookup {
    /// The cache held the member already
    Hit,
    /// The member was looked up in the bindings and cached
    Miss,
}

/// How many method calls and property accesses went through the bindings,
/// and how many of them found their member cached.
#[derive(Debug, Clone, Copy, PartialEq, Eq, Structural)]
pub struct BindingCounts {
    /// Total method calls
    pub total_method_calls: u64,
    /// Total property accesses
    pub total_property_accesses: u64,
    /// Cache hits
    pub cache_hits: u64,
    /// Cache misses
    pub cache_misses: u64,
}

/// The counts after one more lookup with outcome `lookup`.
pub open spec fn counted(c: BindingCounts, lookup: CacheLookup) -> BindingCounts {
    match lookup {
        CacheLookup::Hit => BindingCounts { cache_hits: (c.cache_hits + 1) as u64, ..c },
        CacheLookup::Miss => BindingCounts { cache_misses: (c.cache_misses + 1) as u64, ..c },
    }
}

/// One more lookup with outcome `lookup` can be counted.
pub open spec fn countable(c: BindingCounts, lookup: CacheLookup) -> bool {
    match lookup {
        CacheLookup::Hit => c.cache_hits < u64::MAX,
        CacheLookup::Miss => c.cache_misses < u64::MAX,
    }
}

impl BindingCounts {
    /// All counts at zero.
    pub fn new() -> (r: Self)
        ensures
            r.total_method_calls == 0,
            r.total_property_accesses == 0,
            r.cache_hits == 0,
            r.cache_misses == 0,
    {
        BindingCounts { total_method_calls: 0, total_property_accesses: 0, cache_hits: 0, cache_misses: 0 }
    }

    fn count_lookup(&mut self, lookup: CacheLookup)
        requires
            countable(*old(self), lookup),
        ensures
            *final(self) == counted(*old(self), lookup),
    {
        match lookup {
            CacheLookup::Hit => self.cache_hits = self.cache_hits + 1,
            CacheLookup::Miss => self.cache_misses = self.cache_misses + 1,
        }
    }

    /// Counts a method call whose member lookup had outcome `lookup`.
    pub fn record_method_call(&mut self, lookup: CacheLookup)
        requires
            old(self).total_method_calls < u64::MAX,
            countable(*old(self), lookup),
        ensures
            *final(self) == (BindingCounts {
                total_method_calls: (old(self).total_method_calls + 1) as u64,
                ..counted(*old(self), lookup)
            }),
    {
        self.count_lookup(lookup);
        self.total_method_calls = self.total_method_calls + 1;
    }

    /// Counts a property access whose member lookup had outcome `lookup`.
    pub fn record_property_access(&mut self, lookup: CacheLookup)
        requires
            old(self).total_property_accesses < u64::MAX,
            countable(*old(self), lookup),
        ensures
            *final(self) == (BindingCounts {
                total_property_accesses: (old(self).total_property_accesses + 1) as u64,
                ..counted(*old(self), lookup)
            }),
    {
        self.count_lookup(lookup);
        self.total_property_accesses = self.total_property_accesses + 1;
    }
}

/// Fast DOM binding
pub struct FastDOMBinding {
    /// Interface bindings
    bindings: KeyedTable<InterfaceBinding>,
    /// Method cache
    method_cache: KeyedTable<MethodCacheEntry>,
    /// Property cache
    property_cache: KeyedTable<PropertyCacheEntry>,
}

/// The key under which a member of an interface is cached: the interface
/// name, two colons and the member name.
pub open spec fn member_key(interface_name: Seq<char>, member_name: Seq<char>) -> Seq<char> {
    interface_name + "::"@ + member_name
}

/// The method registered under an interface, if any.
pub open spec fn method_of(bindings: Entries<InterfaceBinding>, interface_name: Seq<char>, method_name: Seq<char>) -> Option<
    MethodBinding,
> {
    match table_get(bindings, interface_name) {
        Some(i) => table_get(i.methods@, method_name),
        None => None,
    }
}

/// The property registered under an interface, if any.
pub open spec fn property_of(
    bindings: Entries<InterfaceBinding>,
    interface_name: Seq<char>,
    property_name: Seq<char>,
) -> Option<PropertyBinding> {
    match table_get(bindings, interface_name) {
        Some(i) => table_get(i.properties@, property_name),
        None => None,
    }
}

/// The text of an optional string, empty where there is none.
pub open spec fn text_or_empty(o: Option<String>) -> Seq<char> {
    match o {
        Some(s) => s@,
        None => Seq::empty(),
    }
}

/// The message for a member that no interface binding holds.
fn not_found(kind: &str, member: &str, interface_name: &str) -> (r: String)
    ensures
        r@ == kind@ + " "@ + member@ + " not found on interface "@ + interface_name@,
{
    let mut msg = concat_str(kind, " ");
    push_str(&mut msg, member);
    push_str(&mut msg, " not found on interface ");
    push_str(&mut msg, interface_name);
    msg
}

impl FastDOMBinding {
    /// The registered interfaces.
    pub closed spec fn interfaces(&self) -> Entries<InterfaceBinding> {
        self.bindings@
    }

    /// The method cache.
    pub closed spec fn methods_cached(&self) -> Entries<MethodCacheEntry> {
        self.method_cache@
    }

    /// The property cache.
    pub closed spec fn properties_cached(&self) -> Entries<PropertyCacheEntry> {
        self.property_cache@
    }

    /// Create a new fast DOM binding
    pub fn new() -> (r: Self)
        ensures
            r.interfaces().len() == 0,
            r.methods_cached().len() == 0,
            r.properties_cached().len() == 0,
    {
        Self { bindings: KeyedTable::new(), method_cache: KeyedTable::new(), property_cache: KeyedTable::new() }
    }

    /// Register interface binding, replacing one of the same name.
    pub fn register_interface(&mut self, interface_name: &str, binding: InterfaceBinding) -> (r: Result<()>)
        ensures
            r is Ok,
            final(self).interfaces() == table_insert(old(self).interfaces(), interface_name@, binding),
            final(self).methods_cached() == old(self).methods_cached(),
            final(self).properties_cached() == old(self).properties_cached(),
    {
        self.bindings.insert(str_to_string(interface_name), binding);
        Ok(())
    }

    /// Get method binding
    pub fn get_method(&self, interface_name: &str, method_name: &str) -> (r: Option<&MethodBinding>)
        ensures
            match method_of(self.interfaces(), interface_name@, method_name@) {
                Some(m) => r matches Some(x) && *x == m,
                None => r is None,
            },
    {
        match self.bindings.get(interface_name) {
            Some(interface) => interface.methods.get(method_name),
            None => None,
        }
    }

    /// Get property binding
    pub fn get_property(&self, interface_name: &str, property_name: &str) -> (r: Option<&PropertyBinding>)
        ensures
            match property_of(self.interfaces(), interface_name@, property_name@) {
                Some(p) => r matches Some(x) && *x == p,
                None => r is None,
            },
    {
        match self.bindings.get(interface_name) {
            Some(interface) => interface.properties.get(property_name),
            None => None,
        }
    }

    /// Call method with caching, at `now`: a cached method counts one more
    /// use; an uncached one is looked up and cached with one use; a method
    /// that no binding holds is an error.
    pub fn call_method(&mut self, interface_name: &str, method_name: &str, now: Timestamp) -> (r: Result<
        CacheLookup,
    >)
        ensures
            final(self).interfaces() == old(self).interfaces(),
            final(self).properties_cached() == old(self).properties_cached(),
            r is Ok ==> table_get(final(self).methods_cached(), member_key(interface_name@, method_name@)) is Some,
            match table_get(old(self).methods_cached(), member_key(interface_name@, method_name@)) {
                Some(c) => r == Ok::<CacheLookup, Error>(CacheLookup::Hit) && final(self).methods_cached()
                    == table_insert(
                    old(self).methods_cached(),
                    member_key(interface_name@, method_name@),
                    MethodCacheEntry { hit_count: c.hit_count.wrapping_add(1), last_access: now, ..c },
                ),
                None => match method_of(old(self).interfaces(), interface_name@, method_name@) {
                    Some(m) => r == Ok::<CacheLookup, Error>(CacheLookup::Miss) && exists|e: MethodCacheEntry|
                        {
                            &&& final(self).methods_cached() == table_insert(
                                old(self).methods_cached(),
                                member_key(interface_name@, method_name@),
                                e,
                            )
                            &&& e.method_name@ == method_name@
                            &&& e.interface_name@ == interface_name@
                            &&& e.cached_function@ == m.native_function@
                            &&& e.hit_count == 1
                            &&& e.last_access == now
                        },
                    None => (r matches Err(e) && e is Parsing) && final(self).methods_cached()
                        == old(self).methods_cached(),
                },
            },
    {
        let mut cache_key = concat_str(interface_name, "::");
        push_str(&mut cache_key, method_name);
        let cached: Option<MethodCacheEntry> = match self.method_cache.get(cache_key.as_str()) {
            Some(entry) => Some(
                MethodCacheEntry {
                    method_name: entry.method_name.clone(),
                    interface_name: entry.interface_name.clone(),
                    cached_function: entry.cached_function.clone(),
                    hit_count: entry.hit_count.wrapping_add(1),
                    last_access: now,
                },
            ),
            None => None,
        };
        match cached {
            Some(updated) => {
                let ghost t = self.method_cache@;
                let ghost k = cache_key@;
                self.method_cache.insert(cache_key, updated);
                proof {
                    lemma_get_after_insert(t, k, updated);
                }
                Ok(CacheLookup::Hit)
            },
            None => {
                let native_function = match self.get_method(interface_name, method_name) {
                    Some(method_binding) => method_binding.native_function.clone(),
                    None => return Err(Error::parsing(not_found("Method", method_name, interface_name))),
                };
                let entry = MethodCacheEntry {
                    method_name: str_to_string(method_name),
                    interface_name: str_to_string(interface_name),
                    cached_function: native_function,
                    hit_count: 1,
                    last_access: now,
                };
                let ghost t = self.method_cache@;
                let ghost k = cache_key@;
                self.method_cache.insert(cache_key, entry);
                proof {
                    lemma_get_after_insert(t, k, entry);
                }
                Ok(CacheLookup::Miss)
            },
        }
    }

    /// Access property with caching, at `now`: as methods are, with the
    /// property's getter (empty where it has none) as the cached accessor.
    pub fn get_property_value(&mut self, interface_name: &str, property_name: &str, now: Timestamp) -> (r: Result<
        CacheLookup,
    >)
        ensures
            final(self).interfaces() == old(self).interfaces(),
            final(self).methods_cached() == old(self).methods_cached(),
            r is Ok ==> table_get(final(self).properties_cached(), member_key(interface_name@, property_name@)) is Some,
            match table_get(old(self).properties_cached(), member_key(interface_name@, property_name@)) {
                Some(c) => r == Ok::<CacheLookup, Error>(CacheLookup::Hit) && final(self).properties_cached()
                    == table_insert(
                    old(self).properties_cached(),
                    member_key(interface_name@, property_name@),
                    PropertyCacheEntry { hit_count: c.hit_count.wrapping_add(1), last_access: now, ..c },
                ),
                None => match property_of(old(self).interfaces(), interface_name@, property_name@) {
                    Some(p) => r == Ok::<CacheLookup, Error>(CacheLookup::Miss) && exists|e: PropertyCacheEntry|
                        {
                            &&& final(self).properties_cached() == table_insert(
                                old(self).properties_cached(),
                                member_key(interface_name@, property_name@),
                                e,
                            )
                            &&& e.property_name@ == property_name@
                            &&& e.interface_name@ == interface_name@
                            &&& e.cached_accessor@ == text_or_empty(p.getter)
                            &&& e.hit_count == 1
                            &&& e.last_access == now
                        },
                    None => (r matches Err(e) && e is Parsing) && final(self).properties_cached()
                        == old(self).properties_cached(),
                },
            },
    {
        let mut cache_key = concat_str(interface_name, "::");
        push_str(&mut cache_key, property_name);
        let cached: Option<PropertyCacheEntry> = match self.property_cache.get(cache_key.as_str()) {
            Some(entry) => Some(
                PropertyCacheEntry {
                    property_name: entry.property_name.clone(),
                    interface_name: entry.interface_name.clone(),
                    cached_accessor: entry.cached_accessor.clone(),
                    hit_count: entry.hit_count.wrapping_add(1),
                    last_access: now,
                },
            ),
            None => None,
        };
        match cached {
            Some(updated) => {
                let ghost t = self.property_cache@;
                let ghost k = cache_key@;
                self.property_cache.insert(cache_key, updated);
                proof {
                    lemma_get_after_insert(t, k, updated);
                }
                Ok(CacheLookup::Hit)
            },
            None => {
                let accessor = match self.get_property(interface_name, property_name) {
                    Some(property_binding) => match &property_binding.getter {
                        Some(g) => g.clone(),
                        None => String::new(),
                    },
                    None => return Err(Error::parsing(not_found("Property", property_name, interface_name))),
                };
                let entry = PropertyCacheEntry {
                    property_name: str_to_string(property_name),
                    interface_name: str_to_string(interface_name),
                    cached_accessor: accessor,
                    hit_count: 1,
                    last_access: now,
                };
                let ghost t = self.property_cache@;
                let ghost k = cache_key@;
                self.property_cache.insert(cache_key, entry);
                proof {
                    lemma_get_after_insert(t, k, entry);
                }
                Ok(CacheLookup::Miss)
            },
        }
    }

    /// Set property value: refused where no binding holds the property or
    /// where it is read-only.
    pub fn set_property_value(&self, interface_name: &str, property_name: &str) -> (r: Result<()>)
        ensures
            match property_of(self.interfaces(), interface_name@, property_name@) {
                Some(p) => if p.readonly {
                    r matches Err(e) && e is Parsing
                } else {
                    r is Ok
                },
                None => r matches Err(e) && e is Parsing,
            },
    {
        match self.get_property(interface_name, property_name) {
            Some(property_binding) => {
                if property_binding.readonly {
                    let mut msg = concat_str("Property ", property_name);
                    push_str(&mut msg, " is read-only");
                    return Err(Error::parsing(msg));
                }
                Ok(())
            },
            None => Err(Error::parsing(not_found("Property", property_name, interface_name))),
        }
    }

    /// Clear caches
    pub fn clear_caches(&mut self)
        ensures
            final(self).interfaces() == old(self).interfaces(),
            final(self).methods_cached().len() == 0,
            final(self).properties_cached().len() == 0,
    {
        self.method_cache = KeyedTable::new();
        self.property_cache = KeyedTable::new();
    }
}

} // verus!
