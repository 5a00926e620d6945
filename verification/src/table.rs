//! A table of values under string keys, compared exactly, each key held once,
//! kept in the order in which keys were first inserted.

use vstd::prelude::*;

verus! {

/// A table viewed as (key, value) pairs in insertion order.
pub type Entries<V> = Seq<(Seq<char>, V)>;

/// The position of the first pair with key `k`, or the length of the table.
pub open spec fn index_of_key<V>(t: Entries<V>, k: Seq<char>) -> nat
    decreases t.len(),
{
    if t.len() == 0 {
        0
    } else if t[0].0 == k {
        0
    } else {
        1 + index_of_key(t.drop_first(), k)
    }
}

/// The value under `k`.
pub open spec fn table_get<V>(t: Entries<V>, k: Seq<char>) -> Option<V> {
    let i = index_of_key(t, k);
    if i < t.len() {
        Some(t[i as int].1)
    } else {
        None
    }
}

/// The table after storing `v` under `k`: an existing pair is replaced in
/// place, a new key is appended.
pub open spec fn table_insert<V>(t: Entries<V>, k: Seq<char>, v: V) -> Entries<V> {
    let i = index_of_key(t, k);
    if i < t.len() {
        t.update(i as int, (k, v))
    } else {
        t.push((k, v))
    }
}

/// The table after removing the pair with key `k`, if any.
pub open spec fn table_remove<V>(t: Entries<V>, k: Seq<char>) -> Entries<V> {
    let i = index_of_key(t, k);
    if i < t.len() {
        t.remove(i as int)
    } else {
        t
    }
}

/// The keys of the table, in order.
pub open spec fn table_keys<V>(t: Entries<V>) -> Seq<Seq<char>> {
    t.map_values(|p: (Seq<char>, V)| p.0)
}

/// No key occurs twice.
pub open spec fn distinct_keys<V>(t: Entries<V>) -> bool {
    forall|i: int, j: int| 0 <= i < t.len() && 0 <= j < t.len() && i != j ==> t[i].0 != t[j].0
}

/// `index_of_key` is the first position holding `k`.
pub proof fn lemma_index_of_key<V>(t: Entries<V>, k: Seq<char>, i: int)
    requires
        0 <= i <= t.len(),
        forall|j: int| 0 <= j < i ==> t[j].0 != k,
        i == t.len() || t[i].0 == k,
    ensures
        index_of_key(t, k) == i,
    decreases i,
{
    if i > 0 {
        let s = t.drop_first();
        assert forall|j: int| 0 <= j < i - 1 implies s[j].0 != k by {
            assert(s[j] == t[j + 1]);
        }
        if i < t.len() {
            assert(s[i - 1] == t[i]);
        }
        lemma_index_of_key(s, k, i - 1);
    }
}

/// `index_of_key` stays within the table and finds the key where it is found.
pub proof fn lemma_index_of_key_bounds<V>(t: Entries<V>, k: Seq<char>)
    ensures
        index_of_key(t, k) <= t.len(),
        index_of_key(t, k) < t.len() ==> t[index_of_key(t, k) as int].0 == k,
        forall|j: int| 0 <= j < index_of_key(t, k) ==> t[j].0 != k,
    decreases t.len(),
{
    if t.len() > 0 && t[0].0 != k {
        let s = t.drop_first();
        lemma_index_of_key_bounds(s, k);
        assert forall|j: int| 0 <= j < index_of_key(t, k) implies t[j].0 != k by {
            if j > 0 {
                assert(t[j] == s[j - 1]);
            }
        }
    }
}

/// A key is found exactly where it occurs in the list of keys.
pub proof fn lemma_get_iff_key<V>(t: Entries<V>, k: Seq<char>)
    ensures
        table_get(t, k) is Some <==> table_keys(t).contains(k),
{
    lemma_index_of_key_bounds(t, k);
    if table_keys(t).contains(k) {
        let j = choose|j: int| 0 <= j < table_keys(t).len() && table_keys(t)[j] == k;
        assert(t[j].0 == k);
    }
    if table_get(t, k) is Some {
        let i = index_of_key(t, k) as int;
        assert(table_keys(t)[i] == k);
    }
}

/// Reading a key back after storing under it gives the stored value.
pub proof fn lemma_get_after_insert<V>(t: Entries<V>, k: Seq<char>, v: V)
    ensures
        table_get(table_insert(t, k, v), k) == Some(v),
{
    lemma_index_of_key_bounds(t, k);
    let i = index_of_key(t, k) as int;
    let t2 = table_insert(t, k, v);
    assert forall|j: int| 0 <= j < i implies t2[j].0 != k by {
        assert(t2[j] == t[j]);
    }
    lemma_index_of_key(t2, k, i);
}

/// Storing under one key leaves the values under other keys as they were.
pub proof fn lemma_get_other_after_insert<V>(t: Entries<V>, k: Seq<char>, v: V, q: Seq<char>)
    requires
        q != k,
    ensures
        table_get(table_insert(t, k, v), q) == table_get(t, q),
{
    lemma_index_of_key_bounds(t, k);
    lemma_index_of_key_bounds(t, q);
    let i = index_of_key(t, k) as int;
    let n = index_of_key(t, q) as int;
    let t2 = table_insert(t, k, v);
    if n < t.len() {
        assert forall|j: int| 0 <= j < n implies t2[j].0 != q by {
            if j != i {
                assert(t2[j] == t[j]);
            }
        }
        assert(t2[n] == t[n]);
        lemma_index_of_key(t2, q, n);
    } else {
        assert forall|j: int| 0 <= j < t2.len() implies t2[j].0 != q by {
            if j < t.len() && j != i {
                assert(t2[j] == t[j]);
            }
        }
        lemma_index_of_key(t2, q, t2.len() as int);
    }
}

/// Storing under a key the table does not hold appends the pair.
pub proof fn lemma_insert_new_key<V>(t: Entries<V>, k: Seq<char>, v: V)
    requires
        !table_keys(t).contains(k),
    ensures
        table_insert(t, k, v) == t.push((k, v)),
{
    assert forall|j: int| 0 <= j < t.len() implies t[j].0 != k by {
        assert(table_keys(t)[j] == t[j].0);
    }
    lemma_index_of_key(t, k, t.len() as int);
}

/// Taking out the pair at `i` and putting a pair with the same key back in
/// its place stores the new value under that key, and the key is absent in
/// between.
pub proof fn lemma_reinsert<V>(t: Entries<V>, i: int, v: V)
    requires
        distinct_keys(t),
        0 <= i < t.len(),
    ensures
        !table_keys(t.remove(i)).contains(t[i].0),
        t.remove(i).insert(i, (t[i].0, v)) == table_insert(t, t[i].0, v),
        table_get(table_insert(t, t[i].0, v), t[i].0) == Some(v),
{
    let k = t[i].0;
    let s = t.remove(i);
    assert forall|j: int| 0 <= j < s.len() implies #[trigger] table_keys(s)[j] != k by {
        let j2 = if j < i { j } else { j + 1 };
        assert(s[j] == t[j2]);
    }
    assert forall|j: int| 0 <= j < i implies t[j].0 != k by {}
    lemma_index_of_key(t, k, i);
    assert(s.insert(i, (k, v)) =~= t.update(i, (k, v)));
    lemma_get_after_insert(t, k, v);
}

/// In a table without repeated keys, a removed key is no longer found.
pub proof fn lemma_get_after_remove<V>(t: Entries<V>, k: Seq<char>)
    requires
        distinct_keys(t),
    ensures
        table_get(table_remove(t, k), k) is None,
{
    lemma_index_of_key_bounds(t, k);
    let i = index_of_key(t, k) as int;
    let t2 = table_remove(t, k);
    assert forall|j: int| 0 <= j < t2.len() implies t2[j].0 != k by {
        if i < t.len() {
            if j < i {
                assert(t2[j] == t[j]);
            } else {
                assert(t2[j] == t[j + 1]);
            }
        } else {
            assert(t2[j] == t[j]);
        }
    }
    lemma_index_of_key(t2, k, t2.len() as int);
}

/// Storing keeps the keys distinct.
pub proof fn lemma_insert_keeps_distinct<V>(t: Entries<V>, k: Seq<char>, v: V)
    requires
        distinct_keys(t),
    ensures
        distinct_keys(table_insert(t, k, v)),
{
    lemma_index_of_key_bounds(t, k);
}

/// Removing keeps the keys distinct.
pub proof fn lemma_remove_keeps_distinct<V>(t: Entries<V>, k: Seq<char>)
    requires
        distinct_keys(t),
    ensures
        distinct_keys(table_remove(t, k)),
{
    lemma_index_of_key_bounds(t, k);
    let i = index_of_key(t, k) as int;
    let t2 = table_remove(t, k);
    if i < t.len() {
        assert forall|a: int, b: int| 0 <= a < t2.len() && 0 <= b < t2.len() && a != b implies t2[a].0
            != t2[b].0 by {
            let a2 = if a < i { a } else { a + 1 };
            let b2 = if b < i { b } else { b + 1 };
            assert(t2[a] == t[a2]);
            assert(t2[b] == t[b2]);
        }
    }
}

/// In a table without repeated keys, taking out the pair at `j` leaves the
/// values under the other keys as they were, and its own key gone.
pub proof fn lemma_get_after_remove_at<V>(t: Entries<V>, j: int, k: Seq<char>)
    requires
        distinct_keys(t),
        0 <= j < t.len(),
    ensures
        k != t[j].0 ==> table_get(t.remove(j), k) == table_get(t, k),
        k == t[j].0 ==> table_get(t.remove(j), k) is None,
        !table_keys(t.remove(j)).contains(t[j].0),
        distinct_keys(t.remove(j)),
{
    let s = t.remove(j);
    lemma_index_of_key_bounds(t, k);
    lemma_index_of_key_bounds(s, k);
    let n = index_of_key(t, k) as int;
    if k != t[j].0 {
        if n < t.len() {
            let m = if n < j { n } else { n - 1 };
            assert(n != j);
            assert(s[m] == t[n]);
            assert forall|x: int| 0 <= x < m implies s[x].0 != k by {
                let x2 = if x < j { x } else { x + 1 };
                assert(s[x] == t[x2]);
            }
            lemma_index_of_key(s, k, m);
        } else {
            assert forall|x: int| 0 <= x < s.len() implies s[x].0 != k by {
                let x2 = if x < j { x } else { x + 1 };
                assert(s[x] == t[x2]);
            }
            lemma_index_of_key(s, k, s.len() as int);
        }
    } else {
        assert forall|x: int| 0 <= x < s.len() implies s[x].0 != k by {
            let x2 = if x < j { x } else { x + 1 };
            assert(s[x] == t[x2]);
        }
        lemma_index_of_key(s, k, s.len() as int);
    }
    if table_keys(s).contains(t[j].0) {
        let w = choose|w: int| 0 <= w < table_keys(s).len() && table_keys(s)[w] == t[j].0;
        let w2 = if w < j { w } else { w + 1 };
        assert(s[w] == t[w2]);
    }
    assert forall|a: int, b: int| 0 <= a < s.len() && 0 <= b < s.len() && a != b implies s[a].0 != s[b].0 by {
        let a2 = if a < j { a } else { a + 1 };
        let b2 = if b < j { b } else { b + 1 };
        assert(s[a] == t[a2]);
        assert(s[b] == t[b2]);
    }
}

/// A table of values under exact string keys.
#[derive(Debug)]
pub struct KeyedTable<V> {
    entries: Vec<(String, V)>,
}

impl<V> View for KeyedTable<V> {
    type V = Entries<V>;

    closed spec fn view(&self) -> Entries<V> {
        self.entries@.map_values(|p: (String, V)| (p.0@, p.1))
    }
}

impl<V> KeyedTable<V> {
    #[verifier::type_invariant]
    spec fn well_formed(self) -> bool {
        distinct_keys(self.entries@.map_values(|p: (String, V)| (p.0@, p.1)))
    }

    /// The position of `key`, or the length of the table.
    pub fn position(&self, key: &str) -> (r: usize)
        ensures
            r == index_of_key(self@, key@),
            r <= self@.len(),
            r < self@.len() ==> self@[r as int].0 == key@,
            distinct_keys(self@),
    {
        proof {
            use_type_invariant(self);
            lemma_index_of_key_bounds(self@, key@);
        }
        let ghost t = self@;
        let mut i: usize = 0;
        while i < self.entries.len()
            invariant
                i <= self.entries@.len(),
                t == self@,
                t.len() == self.entries@.len(),
                distinct_keys(t),
                forall|j: int| 0 <= j < i ==> t[j].0 != key@,
            decreases self.entries@.len() - i,
        {
            assert(t[i as int].0 == self.entries@[i as int].0@);
            if crate::text::str_equal(self.entries[i].0.as_str(), key) {
                proof {
                    lemma_index_of_key(t, key@, i as int);
                }
                return i;
            }
            i = i + 1;
        }
        proof {
            lemma_index_of_key(t, key@, i as int);
        }
        i
    }

    /// An empty table.
    pub fn new() -> (r: Self)
        ensures
            r@ == Seq::<(Seq<char>, V)>::empty(),
    {
        let r = KeyedTable { entries: Vec::new() };
        assert(r@ =~= Seq::<(Seq<char>, V)>::empty());
        r
    }

    /// The number of keys.
    pub fn len(&self) -> (r: usize)
        ensures
            r == self@.len(),
            distinct_keys(self@),
    {
        proof {
            use_type_invariant(self);
        }
        self.entries.len()
    }

    /// Whether the table is empty.
    pub fn is_empty(&self) -> (r: bool)
        ensures
            r == (self@.len() == 0),
    {
        self.entries.len() == 0
    }

    /// Stores `value` under `key`, replacing the value already there.
    pub fn insert(&mut self, key: String, value: V)
        ensures
            final(self)@ == table_insert(old(self)@, key@, value),
    {
        proof {
            use_type_invariant(&*self);
        }
        let i = self.position(key.as_str());
        let ghost old_t = self@;
        let ghost k = key@;
        let ghost val = value;
        let mut entries: Vec<(String, V)> = Vec::new();
        std::mem::swap(&mut entries, &mut self.entries);
        if i < entries.len() {
            entries.set(i, (key, value));
        } else {
            entries.push((key, value));
        }
        proof {
            let t2 = entries@.map_values(|p: (String, V)| (p.0@, p.1));
            assert(t2 =~= table_insert(old_t, k, val));
            lemma_insert_keeps_distinct(old_t, k, val);
        }
        self.entries = entries;
    }

    /// The value under `key`.
    pub fn get(&self, key: &str) -> (r: Option<&V>)
        ensures
            match table_get(self@, key@) {
                Some(v) => r matches Some(x) && *x == v,
                None => r is None,
            },
    {
        let i = self.position(key);
        if i < self.entries.len() {
            assert(self@[i as int] == (self.entries@[i as int].0@, self.entries@[i as int].1));
            Some(&self.entries[i].1)
        } else {
            None
        }
    }

    /// Whether some value is stored under `key`.
    pub fn contains_key(&self, key: &str) -> (r: bool)
        ensures
            r == table_get(self@, key@) is Some,
    {
        let i = self.position(key);
        i < self.entries.len()
    }

    /// Removes the pair with key `key`, giving back its value.
    pub fn remove(&mut self, key: &str) -> (r: Option<V>)
        ensures
            final(self)@ == table_remove(old(self)@, key@),
            r == table_get(old(self)@, key@),
    {
        proof {
            use_type_invariant(&*self);
        }
        let i = self.position(key);
        let ghost old_t = self@;
        if i < self.entries.len() {
            let mut entries: Vec<(String, V)> = Vec::new();
            std::mem::swap(&mut entries, &mut self.entries);
            assert(old_t[i as int] == (entries@[i as int].0@, entries@[i as int].1));
            let removed = entries.remove(i);
            proof {
                let t2 = entries@.map_values(|p: (String, V)| (p.0@, p.1));
                assert(t2 =~= table_remove(old_t, key@));
                lemma_remove_keeps_distinct(old_t, key@);
            }
            self.entries = entries;
            Some(removed.1)
        } else {
            None
        }
    }

    /// The keys, in order.
    pub fn keys(&self) -> (r: Vec<String>)
        ensures
            r@.map_values(|s: String| s@) == table_keys(self@),
    {
        let mut out: Vec<String> = Vec::new();
        let mut i: usize = 0;
        while i < self.entries.len()
            invariant
                i <= self.entries@.len(),
                self@.len() == self.entries@.len(),
                out@.len() == i,
                forall|j: int| 0 <= j < i ==> (#[trigger] out@[j])@ == self@[j].0,
            decreases self.entries@.len() - i,
        {
            assert(self@[i as int].0 == self.entries@[i as int].0@);
            out.push(crate::text::copy_string(&self.entries[i].0));
            i = i + 1;
        }
        assert(out@.map_values(|s: String| s@) =~= table_keys(self@));
        out
    }

    /// Takes out the pair at position `i`.
    pub fn remove_at(&mut self, i: usize) -> (r: (String, V))
        requires
            i < old(self)@.len(),
        ensures
            final(self)@ == old(self)@.remove(i as int),
            r.0@ == old(self)@[i as int].0,
            r.1 == old(self)@[i as int].1,
    {
        proof {
            use_type_invariant(&*self);
        }
        let ghost old_t = self@;
        let mut entries: Vec<(String, V)> = Vec::new();
        std::mem::swap(&mut entries, &mut self.entries);
        assert(old_t[i as int] == (entries@[i as int].0@, entries@[i as int].1));
        let removed = entries.remove(i);
        proof {
            let t2 = entries@.map_values(|p: (String, V)| (p.0@, p.1));
            assert(t2 =~= old_t.remove(i as int));
            assert forall|a: int, b: int| 0 <= a < t2.len() && 0 <= b < t2.len() && a != b implies t2[a].0
                != t2[b].0 by {
                let a2 = if a < i { a } else { a + 1 };
                let b2 = if b < i { b } else { b + 1 };
                assert(t2[a] == old_t[a2]);
                assert(t2[b] == old_t[b2]);
            }
        }
        self.entries = entries;
        removed
    }

    /// Puts a pair with a key the table does not hold at position `i`.
    pub fn insert_at(&mut self, i: usize, key: String, value: V)
        requires
            i <= old(self)@.len(),
            !table_keys(old(self)@).contains(key@),
        ensures
            final(self)@ == old(self)@.insert(i as int, (key@, value)),
    {
        proof {
            use_type_invariant(&*self);
        }
        let ghost old_t = self@;
        let ghost k = key@;
        let ghost v = value;
        let mut entries: Vec<(String, V)> = Vec::new();
        std::mem::swap(&mut entries, &mut self.entries);
        entries.insert(i, (key, value));
        proof {
            let t2 = entries@.map_values(|p: (String, V)| (p.0@, p.1));
            assert(t2 =~= old_t.insert(i as int, (k, v)));
            assert forall|j: int| 0 <= j < old_t.len() implies old_t[j].0 != k by {
                assert(table_keys(old_t)[j] == old_t[j].0);
            }
            assert forall|a: int, b: int| 0 <= a < t2.len() && 0 <= b < t2.len() && a != b implies t2[a].0
                != t2[b].0 by {
                if a != i && b != i {
                    let a2 = if a < i { a } else { a - 1 };
                    let b2 = if b < i { b } else { b - 1 };
                    assert(t2[a] == old_t[a2]);
                    assert(t2[b] == old_t[b2]);
                } else if a == i {
                    let b2 = if b < i { b } else { b - 1 };
                    assert(t2[b] == old_t[b2]);
                } else {
                    let a2 = if a < i { a } else { a - 1 };
                    assert(t2[a] == old_t[a2]);
                }
            }
        }
        self.entries = entries;
    }

    /// The pair at position `i`.
    pub fn entry_at(&self, i: usize) -> (r: (&String, &V))
        requires
            i < self@.len(),
        ensures
            r.0@ == self@[i as int].0,
            *r.1 == self@[i as int].1,
    {
        let p = &self.entries[i];
        (&p.0, &p.1)
    }
}

/// A copy of a table of strings: the same keys with the same values, in the
/// same order.
pub fn copy_text_table(t: &KeyedTable<String>) -> (r: KeyedTable<String>)
    ensures
        r@ == t@,
{
    let n = t.len();
    let mut out: KeyedTable<String> = KeyedTable::new();
    let mut i: usize = 0;
    while i < n
        invariant
            n == t@.len(),
            i <= n,
            distinct_keys(t@),
            out@ == t@.take(i as int),
        decreases n - i,
    {
        let (k, v) = t.entry_at(i);
        proof {
            assert forall|j: int| 0 <= j < i implies table_keys(out@)[j] != k@ by {
                assert(table_keys(out@)[j] == t@[j].0);
            }
            lemma_insert_new_key(out@, k@, *v);
        }
        out.insert(k.clone(), v.clone());
        assert(t@.take(i + 1) =~= t@.take(i as int).push(t@[i as int]));
        i = i + 1;
    }
    assert(t@.take(n as int) =~= t@);
    out
}

impl<V: Clone> Clone for KeyedTable<V> {
    /// A copy with the same keys in the same order, each value cloned.
    fn clone(&self) -> (r: Self)
        ensures
            table_keys(r@) == table_keys(self@),
    {
        proof {
            use_type_invariant(self);
        }
        let mut entries: Vec<(String, V)> = Vec::new();
        let mut i: usize = 0;
        while i < self.entries.len()
            invariant
                i <= self.entries@.len(),
                entries@.len() == i,
                distinct_keys(self.entries@.map_values(|p: (String, V)| (p.0@, p.1))),
                forall|j: int| 0 <= j < i ==> (#[trigger] entries@[j]).0@ == self.entries@[j].0@,
            decreases self.entries@.len() - i,
        {
            let p = &self.entries[i];
            entries.push((crate::text::copy_string(&p.0), p.1.clone()));
            i = i + 1;
        }
        proof {
            let t = self.entries@.map_values(|p: (String, V)| (p.0@, p.1));
            let t2 = entries@.map_values(|p: (String, V)| (p.0@, p.1));
            assert forall|a: int, b: int| 0 <= a < t2.len() && 0 <= b < t2.len() && a != b implies t2[a].0
                != t2[b].0 by {
                assert(t2[a].0 == t[a].0);
                assert(t2[b].0 == t[b].0);
            }
            assert(table_keys(t2) =~= table_keys(t));
        }
        KeyedTable { entries }
    }
}

} // verus!
