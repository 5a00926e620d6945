//! HTTP header fields: an ordered list of name/value pairs in which names
//! are compared without regard to case, each name occurring once.

use vstd::prelude::*;
use crate::text::{lowercase, to_lowercase, parse_unsigned, parse_unsigned_chars, str_chars,
    contains_seq, chars_contain, copy_string, str_to_string};

verus! {

/// One header field, with its name also kept in lower case for lookups.
#[derive(Debug, Clone)]
struct HeaderEntry {
    key: String,
    name: String,
    value: String,
}

/// HTTP headers
#[derive(Debug)]
pub struct HttpHeaders {
    entries: Vec<HeaderEntry>,
}

/// A header list viewed as (name, value) pairs.
pub type HeaderList = Seq<(Seq<char>, Seq<char>)>;

/// The position of the first field whose lower-cased name is `key`, or the
/// length of the list where there is none.
pub open spec fn key_index(h: HeaderList, key: Seq<char>) -> nat
    decreases h.len(),
{
    if h.len() == 0 {
        0
    } else if lowercase(h[0].0) == key {
        0
    } else {
        1 + key_index(h.drop_first(), key)
    }
}

/// The value stored under `key` (a lower-cased name).
pub open spec fn lookup_key(h: HeaderList, key: Seq<char>) -> Option<Seq<char>> {
    let i = key_index(h, key);
    if i < h.len() {
        Some(h[i as int].1)
    } else {
        None
    }
}

/// The value of the field named `name`, in any case.
pub open spec fn lookup(h: HeaderList, name: Seq<char>) -> Option<Seq<char>> {
    lookup_key(h, lowercase(name))
}

/// The list after setting `name` to `value`: the field with that name (in any
/// case) is replaced in place, or the pair is appended.
pub open spec fn set_field(h: HeaderList, name: Seq<char>, value: Seq<char>) -> HeaderList {
    let i = key_index(h, lowercase(name));
    if i < h.len() {
        h.update(i as int, (name, value))
    } else {
        h.push((name, value))
    }
}

/// The list after removing the field named `name` (in any case).
pub open spec fn remove_field(h: HeaderList, name: Seq<char>) -> HeaderList {
    let i = key_index(h, lowercase(name));
    if i < h.len() {
        h.remove(i as int)
    } else {
        h
    }
}

/// No two fields have the same name once lower-cased.
pub open spec fn distinct_names(h: HeaderList) -> bool {
    forall|i: int, j: int|
        0 <= i < h.len() && 0 <= j < h.len() && i != j ==> lowercase(h[i].0) != lowercase(h[j].0)
}

/// `key_index` is the first position whose lower-cased name is `key`.
pub proof fn lemma_key_index(h: HeaderList, key: Seq<char>, i: int)
    requires
        0 <= i <= h.len(),
        forall|j: int| 0 <= j < i ==> lowercase(h[j].0) != key,
        i == h.len() || lowercase(h[i].0) == key,
    ensures
        key_index(h, key) == i,
    decreases i,
{
    if i > 0 {
        let t = h.drop_first();
        assert forall|j: int| 0 <= j < i - 1 implies lowercase(t[j].0) != key by {
            assert(t[j] == h[j + 1]);
        }
        if i < h.len() {
            assert(t[i - 1] == h[i]);
        }
        lemma_key_index(t, key, i - 1);
    }
}

/// `key_index` never passes the end of the list, and what it finds has the key.
pub proof fn lemma_key_index_bounds(h: HeaderList, key: Seq<char>)
    ensures
        key_index(h, key) <= h.len(),
        key_index(h, key) < h.len() ==> lowercase(h[key_index(h, key) as int].0) == key,
        forall|j: int| 0 <= j < key_index(h, key) ==> lowercase(h[j].0) != key,
    decreases h.len(),
{
    if h.len() > 0 && lowercase(h[0].0) != key {
        let t = h.drop_first();
        lemma_key_index_bounds(t, key);
        assert forall|j: int| 0 <= j < key_index(h, key) implies lowercase(h[j].0) != key by {
            if j > 0 {
                assert(h[j] == t[j - 1]);
            }
        }
    }
}

/// Reading a field back after setting it gives the value that was set,
/// whatever the case of the name used to read it.
pub proof fn lemma_get_after_set(h: HeaderList, name: Seq<char>, value: Seq<char>, query: Seq<char>)
    requires
        lowercase(query) == lowercase(name),
    ensures
        lookup(set_field(h, name, value), query) == Some(value),
{
    let key = lowercase(name);
    lemma_key_index_bounds(h, key);
    let i = key_index(h, key) as int;
    let h2 = set_field(h, name, value);
    assert forall|j: int| 0 <= j < i implies lowercase(h2[j].0) != key by {
        assert(h2[j] == h[j]);
    }
    lemma_key_index(h2, key, i);
}

/// Setting one field leaves every field of another name as it was.
pub proof fn lemma_get_other_after_set(h: HeaderList, name: Seq<char>, value: Seq<char>, query: Seq<char>)
    requires
        lowercase(query) != lowercase(name),
    ensures
        lookup(set_field(h, name, value), query) == lookup(h, query),
{
    let key = lowercase(name);
    let q = lowercase(query);
    lemma_key_index_bounds(h, key);
    lemma_key_index_bounds(h, q);
    let i = key_index(h, key) as int;
    let k = key_index(h, q) as int;
    let h2 = set_field(h, name, value);
    if k < h.len() {
        assert forall|j: int| 0 <= j < k implies lowercase(h2[j].0) != q by {
            if j != i {
                assert(h2[j] == h[j]);
            }
        }
        assert(h2[k] == h[k]);
        lemma_key_index(h2, q, k);
    } else {
        assert forall|j: int| 0 <= j < h2.len() implies lowercase(h2[j].0) != q by {
            if j < h.len() && j != i {
                assert(h2[j] == h[j]);
            }
        }
        lemma_key_index(h2, q, h2.len() as int);
    }
}

/// In a list without repeated names, a removed field can no longer be read.
pub proof fn lemma_get_after_remove(h: HeaderList, name: Seq<char>, query: Seq<char>)
    requires
        distinct_names(h),
        lowercase(query) == lowercase(name),
    ensures
        lookup(remove_field(h, name), query) is None,
{
    let key = lowercase(name);
    lemma_key_index_bounds(h, key);
    let i = key_index(h, key) as int;
    let h2 = remove_field(h, name);
    assert forall|j: int| 0 <= j < h2.len() implies lowercase(h2[j].0) != key by {
        if i < h.len() {
            if j < i {
                assert(h2[j] == h[j]);
            } else {
                assert(h2[j] == h[j + 1]);
            }
        } else {
            assert(h2[j] == h[j]);
        }
    }
    lemma_key_index(h2, key, h2.len() as int);
}

/// Removing one field leaves every field of another name as it was.
pub proof fn lemma_get_other_after_remove(h: HeaderList, name: Seq<char>, query: Seq<char>)
    requires
        lowercase(query) != lowercase(name),
    ensures
        lookup(remove_field(h, name), query) == lookup(h, query),
{
    let key = lowercase(name);
    let q = lowercase(query);
    lemma_key_index_bounds(h, key);
    lemma_key_index_bounds(h, q);
    let i = key_index(h, key) as int;
    let k = key_index(h, q) as int;
    let h2 = remove_field(h, name);
    if i < h.len() {
        if k < h.len() {
            if k < i {
                assert forall|j: int| 0 <= j < k implies lowercase(h2[j].0) != q by {
                    assert(h2[j] == h[j]);
                }
                assert(h2[k] == h[k]);
                lemma_key_index(h2, q, k);
            } else {
                assert(k != i);
                assert forall|j: int| 0 <= j < k - 1 implies lowercase(h2[j].0) != q by {
                    if j < i {
                        assert(h2[j] == h[j]);
                    } else {
                        assert(h2[j] == h[j + 1]);
                    }
                }
                assert(h2[k - 1] == h[k]);
                lemma_key_index(h2, q, k - 1);
            }
        } else {
            assert forall|j: int| 0 <= j < h2.len() implies lowercase(h2[j].0) != q by {
                if j < i {
                    assert(h2[j] == h[j]);
                } else {
                    assert(h2[j] == h[j + 1]);
                }
            }
            lemma_key_index(h2, q, h2.len() as int);
        }
    }
}

/// A change to a header list: setting a name to a value, or removing a name.
pub enum HeaderChange {
    Put(Seq<char>, Seq<char>),
    Remove(Seq<char>),
}

/// The name a change concerns.
pub open spec fn change_name(c: HeaderChange) -> Seq<char> {
    match c {
        HeaderChange::Put(n, _) => n,
        HeaderChange::Remove(n) => n,
    }
}

/// The list after the changes, in order, as `set` and `remove` make them.
pub open spec fn apply_changes(h: HeaderList, cs: Seq<HeaderChange>) -> HeaderList
    decreases cs.len(),
{
    if cs.len() == 0 {
        h
    } else {
        let h1 = match cs[0] {
            HeaderChange::Put(n, v) => set_field(h, n, v),
            HeaderChange::Remove(n) => remove_field(h, n),
        };
        apply_changes(h1, cs.drop_first())
    }
}

/// Changes to other names leave a lookup as it was.
pub proof fn lemma_other_changes_keep(h: HeaderList, cs: Seq<HeaderChange>, query: Seq<char>)
    requires
        forall|i: int| 0 <= i < cs.len() ==> lowercase(change_name(#[trigger] cs[i])) != lowercase(query),
    ensures
        lookup(apply_changes(h, cs), query) == lookup(h, query),
    decreases cs.len(),
{
    if cs.len() > 0 {
        let h1 = match cs[0] {
            HeaderChange::Put(n, v) => set_field(h, n, v),
            HeaderChange::Remove(n) => remove_field(h, n),
        };
        assert(lowercase(change_name(cs[0])) != lowercase(query));
        match cs[0] {
            HeaderChange::Put(n, v) => lemma_get_other_after_set(h, n, v, query),
            HeaderChange::Remove(n) => lemma_get_other_after_remove(h, n, query),
        }
        assert forall|i: int| 0 <= i < cs.drop_first().len() implies lowercase(
            change_name(#[trigger] cs.drop_first()[i]),
        ) != lowercase(query) by {
            assert(cs.drop_first()[i] == cs[i + 1]);
        }
        lemma_other_changes_keep(h1, cs.drop_first(), query);
    }
}

/// Once a name is set, a lookup under that name in any case gives the value
/// set, whatever is later set or removed under other names, any number of
/// times. `HttpHeaders::set` and `HttpHeaders::remove` turn the view into
/// `set_field` and `remove_field` of it, and `HttpHeaders::get` answers
/// `lookup`, so this holds of any run of those calls.
pub proof fn lemma_lookup_after_set(
    h: HeaderList,
    name: Seq<char>,
    value: Seq<char>,
    later: Seq<HeaderChange>,
    query: Seq<char>,
)
    requires
        lowercase(query) == lowercase(name),
        forall|i: int| 0 <= i < later.len() ==> lowercase(change_name(#[trigger] later[i])) != lowercase(name),
    ensures
        lookup(apply_changes(set_field(h, name, value), later), query) == Some(value),
{
    lemma_get_after_set(h, name, value, query);
    lemma_other_changes_keep(set_field(h, name, value), later, query);
}

/// Setting a field keeps the names distinct.
pub proof fn lemma_set_keeps_distinct(h: HeaderList, name: Seq<char>, value: Seq<char>)
    requires
        distinct_names(h),
    ensures
        distinct_names(set_field(h, name, value)),
{
    lemma_key_index_bounds(h, lowercase(name));
}

/// Removing a field keeps the names distinct.
pub proof fn lemma_remove_keeps_distinct(h: HeaderList, name: Seq<char>)
    requires
        distinct_names(h),
    ensures
        distinct_names(remove_field(h, name)),
{
    lemma_key_index_bounds(h, lowercase(name));
    let i = key_index(h, lowercase(name)) as int;
    let h2 = remove_field(h, name);
    if i < h.len() {
        assert forall|a: int, b: int|
            0 <= a < h2.len() && 0 <= b < h2.len() && a != b implies lowercase(h2[a].0) != lowercase(
            h2[b].0) by {
            let a2 = if a < i { a } else { a + 1 };
            let b2 = if b < i { b } else { b + 1 };
            assert(h2[a] == h[a2]);
            assert(h2[b] == h[b2]);
        }
    }
}

impl HeaderEntry {
    spec fn pair(self) -> (Seq<char>, Seq<char>) {
        (self.name@, self.value@)
    }
}

impl View for HttpHeaders {
    type V = HeaderList;

    closed spec fn view(&self) -> HeaderList {
        self.entries@.map_values(|e: HeaderEntry| e.pair())
    }
}

impl HttpHeaders {
    #[verifier::type_invariant]
    spec fn well_formed(self) -> bool {
        &&& forall|i: int|
            0 <= i < self.entries@.len() ==> #[trigger] self.entries@[i].key@ == lowercase(
                self.entries@[i].name@,
            )
        &&& distinct_names(self.entries@.map_values(|e: HeaderEntry| e.pair()))
    }

    /// Finds the position of the field whose lower-cased name is `key`.
    fn position_of(&self, key: &String) -> (r: usize)
        ensures
            r == key_index(self@, key@),
            r <= self@.len(),
    {
        proof {
            use_type_invariant(self);
        }
        let ghost h = self@;
        let mut i: usize = 0;
        while i < self.entries.len()
            invariant
                i <= self.entries@.len(),
                h == self@,
                h.len() == self.entries@.len(),
                forall|k: int|
                    0 <= k < self.entries@.len() ==> #[trigger] self.entries@[k].key@ == lowercase(
                        self.entries@[k].name@,
                    ),
                forall|j: int| 0 <= j < i ==> lowercase(h[j].0) != key@,
            decreases self.entries@.len() - i,
        {
            assert(h[i as int] == self.entries@[i as int].pair());
            if self.entries[i].key == *key {
                proof {
                    lemma_key_index(h, key@, i as int);
                }
                return i;
            }
            i = i + 1;
        }
        proof {
            lemma_key_index(h, key@, i as int);
        }
        i
    }

    /// Create new headers
    pub fn new() -> (r: Self)
        ensures
            r@ == Seq::<(Seq<char>, Seq<char>)>::empty(),
    {
        let r = HttpHeaders { entries: Vec::new() };
        assert(r@ =~= Seq::<(Seq<char>, Seq<char>)>::empty());
        r
    }

    /// Set header
    pub fn set(&mut self, name: &str, value: &str)
        ensures
            final(self)@ == set_field(old(self)@, name@, value@),
            distinct_names(final(self)@),
            forall|q: Seq<char>| lowercase(q) == lowercase(name@) ==> #[trigger] lookup(final(self)@, q) == Some(
                value@,
            ),
            forall|q: Seq<char>|
                lowercase(q) != lowercase(name@) ==> #[trigger] lookup(final(self)@, q) == lookup(old(self)@, q),
    {
        proof {
            use_type_invariant(&*self);
        }
        let key = to_lowercase(name);
        let i = self.position_of(&key);
        let entry = HeaderEntry { key, name: str_to_string(name), value: str_to_string(value) };
        let ghost old_h = self@;
        let mut entries: Vec<HeaderEntry> = Vec::new();
        std::mem::swap(&mut entries, &mut self.entries);
        if i < entries.len() {
            entries.set(i, entry);
        } else {
            entries.push(entry);
        }
        proof {
            let h2 = entries@.map_values(|e: HeaderEntry| e.pair());
            assert(h2 =~= set_field(old_h, name@, value@));
            lemma_set_keeps_distinct(old_h, name@, value@);
            assert forall|q: Seq<char>| lowercase(q) == lowercase(name@) implies #[trigger] lookup(h2, q) == Some(
                value@,
            ) by {
                lemma_get_after_set(old_h, name@, value@, q);
            }
            assert forall|q: Seq<char>| lowercase(q) != lowercase(name@) implies #[trigger] lookup(h2, q) == lookup(
                old_h,
                q,
            ) by {
                lemma_get_other_after_set(old_h, name@, value@, q);
            }
        }
        self.entries = entries;
    }

    /// Get header
    pub fn get(&self, name: &str) -> (r: Option<&String>)
        ensures
            match lookup(self@, name@) {
                Some(v) => r matches Some(s) && s@ == v,
                None => r is None,
            },
    {
        let key = to_lowercase(name);
        let i = self.position_of(&key);
        if i < self.entries.len() {
            assert(self@[i as int] == self.entries@[i as int].pair());
            Some(&self.entries[i].value)
        } else {
            None
        }
    }

    /// Remove header
    pub fn remove(&mut self, name: &str) -> (r: Option<String>)
        ensures
            final(self)@ == remove_field(old(self)@, name@),
            match lookup(old(self)@, name@) {
                Some(v) => r matches Some(s) && s@ == v,
                None => r is None,
            },
            distinct_names(final(self)@),
            forall|q: Seq<char>| lowercase(q) == lowercase(name@) ==> #[trigger] lookup(final(self)@, q) is None,
            forall|q: Seq<char>|
                lowercase(q) != lowercase(name@) ==> #[trigger] lookup(final(self)@, q) == lookup(old(self)@, q),
    {
        proof {
            use_type_invariant(&*self);
        }
        let key = to_lowercase(name);
        let i = self.position_of(&key);
        let ghost old_h = self@;
        if i < self.entries.len() {
            let mut entries: Vec<HeaderEntry> = Vec::new();
        std::mem::swap(&mut entries, &mut self.entries);
            assert(old_h[i as int] == entries@[i as int].pair());
            let removed = entries.remove(i);
            proof {
                let h2 = entries@.map_values(|e: HeaderEntry| e.pair());
                assert(h2 =~= remove_field(old_h, name@));
                lemma_remove_keeps_distinct(old_h, name@);
            }
            self.entries = entries;
            proof {
                assert forall|q: Seq<char>| lowercase(q) == lowercase(name@) implies #[trigger] lookup(
                    self@,
                    q,
                ) is None by {
                    lemma_get_after_remove(old_h, name@, q);
                }
                assert forall|q: Seq<char>| lowercase(q) != lowercase(name@) implies #[trigger] lookup(self@, q)
                    == lookup(old_h, q) by {
                    lemma_get_other_after_remove(old_h, name@, q);
                }
            }
            Some(removed.value)
        } else {
            proof {
                assert forall|q: Seq<char>| lowercase(q) == lowercase(name@) implies #[trigger] lookup(
                    self@,
                    q,
                ) is None by {
                    lemma_key_index_bounds(old_h, lowercase(name@));
                }
            }
            None
        }
    }

    /// Check if header exists
    pub fn contains(&self, name: &str) -> (r: bool)
        ensures
            r == lookup(self@, name@).is_some(),
    {
        let key = to_lowercase(name);
        let i = self.position_of(&key);
        i < self.entries.len()
    }

    /// The fields as owned (name, value) pairs, in order.
    pub fn pairs(&self) -> (r: Vec<(String, String)>)
        ensures
            r@.len() == self@.len(),
            forall|i: int| 0 <= i < r@.len() ==> (#[trigger] r@[i]).0@ == self@[i].0 && r@[i].1@ == self@[i].1,
    {
        let mut out: Vec<(String, String)> = Vec::new();
        let mut i: usize = 0;
        while i < self.entries.len()
            invariant
                i <= self.entries@.len(),
                out@.len() == i,
                self@.len() == self.entries@.len(),
                forall|k: int| 0 <= k < i ==> (#[trigger] out@[k]).0@ == self@[k].0 && out@[k].1@ == self@[k].1,
            decreases self.entries@.len() - i,
        {
            assert(self@[i as int] == self.entries@[i as int].pair());
            let e = &self.entries[i];
            out.push((copy_string(&e.name), copy_string(&e.value)));
            i = i + 1;
        }
        out
    }

    /// The fields as owned pairs of lower-cased name and value, in order.
    pub(crate) fn lower_pairs(&self) -> (r: Vec<(String, String)>)
        ensures
            r@.len() == self@.len(),
            forall|i: int|
                0 <= i < r@.len() ==> (#[trigger] r@[i]).0@ == lowercase(self@[i].0) && r@[i].1@ == self@[i].1,
    {
        proof {
            use_type_invariant(self);
        }
        let mut out: Vec<(String, String)> = Vec::new();
        let mut i: usize = 0;
        while i < self.entries.len()
            invariant
                i <= self.entries@.len(),
                out@.len() == i,
                self@.len() == self.entries@.len(),
                forall|k: int|
                    0 <= k < self.entries@.len() ==> #[trigger] self.entries@[k].key@ == lowercase(
                        self.entries@[k].name@,
                    ),
                forall|k: int|
                    0 <= k < i ==> (#[trigger] out@[k]).0@ == lowercase(self@[k].0) && out@[k].1@ == self@[k].1,
            decreases self.entries@.len() - i,
        {
            assert(self@[i as int] == self.entries@[i as int].pair());
            let e = &self.entries[i];
            out.push((copy_string(&e.key), copy_string(&e.value)));
            i = i + 1;
        }
        out
    }

    /// Get all headers, as (name, value) pairs in order.
    pub fn iter(&self) -> (r: std::vec::IntoIter<(String, String)>)
        ensures
            vstd::std_specs::vec::into_iter_elts(r).len() == self@.len(),
            forall|i: int|
                0 <= i < self@.len() ==> (#[trigger] vstd::std_specs::vec::into_iter_elts(r)[i]).0@ == self@[i].0
                    && vstd::std_specs::vec::into_iter_elts(r)[i].1@ == self@[i].1,
    {
        let v = self.pairs();
        proof {
            broadcast use vstd::std_specs::vec::axiom_spec_into_iter;
        }
        v.into_iter()
    }

    /// The number of fields.
    pub fn len(&self) -> (r: usize)
        ensures
            r == self@.len(),
    {
        self.entries.len()
    }

    /// A copy of these headers.
    pub fn duplicate(&self) -> (r: HttpHeaders)
        ensures
            r@ == self@,
    {
        proof {
            use_type_invariant(self);
        }
        let mut entries: Vec<HeaderEntry> = Vec::new();
        let mut i: usize = 0;
        while i < self.entries.len()
            invariant
                i <= self.entries@.len(),
                entries@.len() == i,
                forall|k: int|
                    0 <= k < i ==> (#[trigger] entries@[k]).key@ == self.entries@[k].key@
                        && entries@[k].name@ == self.entries@[k].name@ && entries@[k].value@
                        == self.entries@[k].value@,
            decreases self.entries@.len() - i,
        {
            let e = &self.entries[i];
            entries.push(
                HeaderEntry {
                    key: copy_string(&e.key),
                    name: copy_string(&e.name),
                    value: copy_string(&e.value),
                },
            );
            i = i + 1;
        }
        assert(entries@.map_values(|e: HeaderEntry| e.pair()) =~= self.entries@.map_values(
            |e: HeaderEntry| e.pair(),
        ));
        let r = HttpHeaders { entries };
        assert(r@ =~= self@);
        r
    }

    /// Get content length: the `Content-Length` field read as a decimal number.
    pub fn content_length(&self) -> (r: Option<usize>)
        ensures
            r == match lookup(self@, "content-length"@) {
                Some(v) => match parse_unsigned(v, usize::MAX as nat) {
                    Some(n) => Some(n as usize),
                    None => None,
                },
                None => None,
            },
    {
        match self.get("content-length") {
            Some(v) => {
                let cs = str_chars(v.as_str());
                match parse_unsigned_chars(cs.as_slice(), usize::MAX as u64) {
                    Some(n) => Some(n as usize),
                    None => None,
                }
            },
            None => None,
        }
    }

    /// Get transfer encoding
    pub fn transfer_encoding(&self) -> (r: Option<&String>)
        ensures
            match lookup(self@, "transfer-encoding"@) {
                Some(v) => r matches Some(s) && s@ == v,
                None => r is None,
            },
    {
        self.get("transfer-encoding")
    }

    /// Check if chunked: the transfer encoding, lower-cased, mentions `chunked`.
    pub fn is_chunked(&self) -> (r: bool)
        ensures
            r == match lookup(self@, "transfer-encoding"@) {
                Some(v) => contains_seq(lowercase(v), "chunked"@),
                None => false,
            },
    {
        match self.transfer_encoding() {
            Some(v) => {
                let l = to_lowercase(v.as_str());
                let lc = str_chars(l.as_str());
                let needle = str_chars("chunked");
                chars_contain(lc.as_slice(), needle.as_slice())
            },
            None => false,
        }
    }

    /// Get connection type
    pub fn connection(&self) -> (r: Option<&String>)
        ensures
            match lookup(self@, "connection"@) {
                Some(v) => r matches Some(s) && s@ == v,
                None => r is None,
            },
    {
        self.get("connection")
    }

    /// Check if keep-alive: the connection field, lower-cased, mentions `keep-alive`.
    pub fn is_keep_alive(&self) -> (r: bool)
        ensures
            r == match lookup(self@, "connection"@) {
                Some(v) => contains_seq(lowercase(v), "keep-alive"@),
                None => false,
            },
    {
        match self.connection() {
            Some(v) => {
                let l = to_lowercase(v.as_str());
                let lc = str_chars(l.as_str());
                let needle = str_chars("keep-alive");
                chars_contain(lc.as_slice(), needle.as_slice())
            },
            None => false,
        }
    }

    /// Get host
    pub fn host(&self) -> (r: Option<&String>)
        ensures
            match lookup(self@, "host"@) {
                Some(v) => r matches Some(s) && s@ == v,
                None => r is None,
            },
    {
        self.get("host")
    }

    /// Get user agent
    pub fn user_agent(&self) -> (r: Option<&String>)
        ensures
            match lookup(self@, "user-agent"@) {
                Some(v) => r matches Some(s) && s@ == v,
                None => r is None,
            },
    {
        self.get("user-agent")
    }
}

impl Clone for HttpHeaders {
    fn clone(&self) -> (r: Self)
        ensures
            r@ == self@,
    {
        self.duplicate()
    }
}

impl Default for HttpHeaders {
    fn default() -> (r: Self)
        ensures
            r@ == Seq::<(Seq<char>, Seq<char>)>::empty(),
    {
        Self::new()
    }
}

} // verus!
