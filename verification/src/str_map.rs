//! A map keyed by strings, kept as a list of entries with distinct keys.
use vstd::prelude::*;
use crate::text::{chars_of, occurs_at};

verus! {

/// Whether two strings hold the same characters.
pub fn same_text(a: &str, b: &str) -> (r: bool)
    ensures
        r == (a@ == b@),
{
    let ac = chars_of(a);
    let bc = chars_of(b);
    if ac.len() != bc.len() {
        return false;
    }
    let r = occurs_at(&ac, &bc, 0);
    proof {
        assert(ac@.subrange(0, bc@.len() as int) =~= ac@);
    }
    r
}

/// Whether no two entries of `s` have the same key.
pub open spec fn keys_distinct<V>(s: Seq<(Seq<char>, V)>) -> bool {
    forall|i: int, j: int| 0 <= i < j < s.len() ==> #[trigger] s[i].0 != #[trigger] s[j].0
}

/// Whether entry `i` of `s` has key `k`.
pub open spec fn key_at<V>(s: Seq<(Seq<char>, V)>, k: Seq<char>, i: int) -> bool {
    0 <= i < s.len() && s[i].0 == k
}

/// The map that a list of entries stands for: each key of an entry maps to
/// the value of an entry with that key.
pub open spec fn entries_map<V>(s: Seq<(Seq<char>, V)>) -> Map<Seq<char>, V> {
    Map::new(
        |k: Seq<char>| exists|i: int| key_at(s, k, i),
        |k: Seq<char>| s[choose|i: int| key_at(s, k, i)].1,
    )
}

proof fn lemma_lookup<V>(s: Seq<(Seq<char>, V)>, i: int)
    requires
        keys_distinct(s),
        0 <= i < s.len(),
    ensures
        entries_map(s).contains_key(s[i].0),
        entries_map(s)[s[i].0] == s[i].1,
{
    let k = s[i].0;
    assert(key_at(s, k, i));
    let j = choose|j: int| key_at(s, k, j);
    if j < i {
        assert(s[j].0 != s[i].0);
    } else if i < j {
        assert(s[i].0 != s[j].0);
    }
}

proof fn lemma_absent<V>(s: Seq<(Seq<char>, V)>, k: Seq<char>)
    requires
        !entries_map(s).contains_key(k),
    ensures
        forall|i: int| 0 <= i < s.len() ==> s[i].0 != k,
{
    assert forall|i: int| 0 <= i < s.len() implies s[i].0 != k by {
        if s[i].0 == k {
            assert(key_at(s, k, i));
        }
    }
}

proof fn lemma_update<V>(s: Seq<(Seq<char>, V)>, i: int, v: V)
    requires
        keys_distinct(s),
        0 <= i < s.len(),
    ensures
        keys_distinct(s.update(i, (s[i].0, v))),
        entries_map(s.update(i, (s[i].0, v))) == entries_map(s).insert(s[i].0, v),
{
    let t = s.update(i, (s[i].0, v));
    let k = s[i].0;
    assert(forall|j: int| 0 <= j < s.len() ==> #[trigger] t[j].0 == s[j].0);
    assert forall|a: int, b: int| 0 <= a < b < t.len() implies #[trigger] t[a].0 != #[trigger] t[b].0 by {
        assert(s[a].0 != s[b].0);
    }
    let m = entries_map(s).insert(k, v);
    assert forall|q: Seq<char>| #[trigger] entries_map(t).contains_key(q) == m.contains_key(q) by {
        if entries_map(t).contains_key(q) {
            let j = choose|j: int| key_at(t, q, j);
            assert(key_at(s, q, j));
        }
        if m.contains_key(q) && q != k {
            let j = choose|j: int| key_at(s, q, j);
            assert(key_at(t, q, j));
        }
        if q == k {
            assert(key_at(t, q, i));
        }
    }
    assert forall|q: Seq<char>| #[trigger] entries_map(t).contains_key(q) implies entries_map(t)[q] == m[q] by {
        let j = choose|j: int| key_at(t, q, j);
        lemma_lookup(t, j);
        if j != i {
            lemma_lookup(s, j);
        }
    }
    assert(entries_map(t) =~= m);
}

proof fn lemma_push<V>(s: Seq<(Seq<char>, V)>, k: Seq<char>, v: V)
    requires
        keys_distinct(s),
        !entries_map(s).contains_key(k),
    ensures
        keys_distinct(s.push((k, v))),
        entries_map(s.push((k, v))) == entries_map(s).insert(k, v),
{
    let t = s.push((k, v));
    lemma_absent(s, k);
    assert forall|a: int, b: int| 0 <= a < b < t.len() implies #[trigger] t[a].0 != #[trigger] t[b].0 by {
        if b < s.len() {
            assert(s[a].0 != s[b].0);
        }
    }
    let m = entries_map(s).insert(k, v);
    assert forall|q: Seq<char>| #[trigger] entries_map(t).contains_key(q) == m.contains_key(q) by {
        if entries_map(t).contains_key(q) {
            let j = choose|j: int| key_at(t, q, j);
            if j < s.len() {
                assert(key_at(s, q, j));
            }
        }
        if m.contains_key(q) && q != k {
            let j = choose|j: int| key_at(s, q, j);
            assert(key_at(t, q, j));
        }
        if q == k {
            assert(key_at(t, q, s.len() as int));
        }
    }
    assert forall|q: Seq<char>| #[trigger] entries_map(t).contains_key(q) implies entries_map(t)[q] == m[q] by {
        let j = choose|j: int| key_at(t, q, j);
        lemma_lookup(t, j);
        if j < s.len() {
            lemma_lookup(s, j);
        }
    }
    assert(entries_map(t) =~= m);
}

proof fn lemma_remove<V>(s: Seq<(Seq<char>, V)>, i: int)
    requires
        keys_distinct(s),
        0 <= i < s.len(),
    ensures
        keys_distinct(s.remove(i)),
        entries_map(s.remove(i)) == entries_map(s).remove(s[i].0),
{
    let t = s.remove(i);
    let k = s[i].0;
    assert forall|j: int| 0 <= j < t.len() implies #[trigger] t[j] == (if j < i { s[j] } else { s[j + 1] }) by {}
    assert forall|a: int, b: int| 0 <= a < b < t.len() implies #[trigger] t[a].0 != #[trigger] t[b].0 by {
        let a2 = if a < i { a } else { a + 1 };
        let b2 = if b < i { b } else { b + 1 };
        assert(s[a2].0 != s[b2].0);
    }
    let m = entries_map(s).remove(k);
    assert forall|q: Seq<char>| #[trigger] entries_map(t).contains_key(q) == m.contains_key(q) by {
        if entries_map(t).contains_key(q) {
            let j = choose|j: int| key_at(t, q, j);
            let j2 = if j < i { j } else { j + 1 };
            assert(key_at(s, q, j2));
            if j2 < i {
                assert(s[j2].0 != s[i].0);
            } else {
                assert(s[i].0 != s[j2].0);
            }
        }
        if m.contains_key(q) {
            let j = choose|j: int| key_at(s, q, j);
            assert(j != i);
            let j2 = if j < i { j } else { j - 1 };
            assert(key_at(t, q, j2));
        }
    }
    assert forall|q: Seq<char>| #[trigger] entries_map(t).contains_key(q) implies entries_map(t)[q] == m[q] by {
        let j = choose|j: int| key_at(t, q, j);
        lemma_lookup(t, j);
        let j2 = if j < i { j } else { j + 1 };
        lemma_lookup(s, j2);
    }
    assert(entries_map(t) =~= m);
}

/// The entries of a list as key views and values, in their order.
pub open spec fn entry_views<V>(v: Seq<(String, V)>) -> Seq<(Seq<char>, V)> {
    v.map_values(|e: (String, V)| (e.0@, e.1))
}

fn find_key<V>(entries: &Vec<(String, V)>, key: &str) -> (r: Option<usize>)
    ensures
        match r {
            Some(i) => key_at(entry_views(entries@), key@, i as int),
            None => !entries_map(entry_views(entries@)).contains_key(key@),
        },
{
    let mut i: usize = 0;
    while i < entries.len()
        invariant
            i <= entries@.len(),
            forall|j: int| 0 <= j < i ==> entries@[j].0@ != key@,
        decreases entries.len() - i,
    {
        if same_text(entries[i].0.as_str(), key) {
            return Some(i);
        }
        i = i + 1;
    }
    proof {
        let s = entry_views(entries@);
        if entries_map(s).contains_key(key@) {
            let j = choose|j: int| key_at(s, key@, j);
            assert(entries@[j].0@ == key@);
        }
    }
    None
}

/// A finite map from strings to values, compared by the strings' characters.
///
/// Its entries are kept in the order in which their keys were first inserted.
pub struct StrMap<V> {
    entries: Vec<(String, V)>,
}

impl<V> StrMap<V> {
    /// The entries as key views and values, in their order.
    pub closed spec fn entry_seq(self) -> Seq<(Seq<char>, V)> {
        entry_views(self.entries@)
    }

    #[verifier::type_invariant]
    spec fn wf(self) -> bool {
        keys_distinct(self.entry_seq())
    }
}

impl<V> View for StrMap<V> {
    type V = Map<Seq<char>, V>;

    open spec fn view(&self) -> Map<Seq<char>, V> {
        entries_map(self.entry_seq())
    }
}

impl<V> StrMap<V> {
    /// An empty map.
    pub fn new() -> (m: Self)
        ensures
            m@ == Map::<Seq<char>, V>::empty(),
    {
        let m = StrMap { entries: Vec::new() };
        assert(m@ =~= Map::<Seq<char>, V>::empty());
        m
    }

    /// Whether `key` has a value.
    pub fn contains_key(&self, key: &str) -> (b: bool)
        ensures
            b == self@.contains_key(key@),
    {
        proof {
            use_type_invariant(self);
        }
        match find_key(&self.entries, key) {
            Some(i) => {
                proof {
                    lemma_lookup(self.entry_seq(), i as int);
                }
                true
            },
            None => false,
        }
    }

    /// The value of `key`, if it has one.
    pub fn get(&self, key: &str) -> (r: Option<&V>)
        ensures
            match r {
                Some(v) => self@.contains_key(key@) && *v == self@[key@],
                None => !self@.contains_key(key@),
            },
    {
        proof {
            use_type_invariant(self);
        }
        match find_key(&self.entries, key) {
            Some(i) => {
                proof {
                    lemma_lookup(self.entry_seq(), i as int);
                }
                Some(&self.entries[i].1)
            },
            None => None,
        }
    }

    /// Gives `key` the value `value`, replacing any it had.
    pub fn insert(&mut self, key: String, value: V)
        ensures
            final(self)@ == old(self)@.insert(key@, value),
    {
        proof {
            use_type_invariant(&*self);
        }
        let ghost s = self.entry_seq();
        let mut entries: Vec<(String, V)> = Vec::new();
        std::mem::swap(&mut entries, &mut self.entries);
        match find_key(&entries, key.as_str()) {
            Some(i) => {
                entries.set(i, (key, value));
                proof {
                    lemma_update(s, i as int, value);
                    assert(entry_views(entries@) =~= s.update(
                        i as int,
                        (s[i as int].0, value),
                    ));
                }
            },
            None => {
                let ghost k = key@;
                entries.push((key, value));
                proof {
                    lemma_push(s, k, value);
                    assert(entry_views(entries@) =~= s.push(
                        (k, value),
                    ));
                }
            },
        }
        self.entries = entries;
    }

    /// Takes `key` out of the map, handing back the value it had, if any.
    pub fn take(&mut self, key: &str) -> (r: Option<V>)
        ensures
            final(self)@ == old(self)@.remove(key@),
            match r {
                Some(v) => old(self)@.contains_key(key@) && v == old(self)@[key@],
                None => !old(self)@.contains_key(key@),
            },
    {
        proof {
            use_type_invariant(&*self);
        }
        let ghost s = self.entry_seq();
        let mut entries: Vec<(String, V)> = Vec::new();
        std::mem::swap(&mut entries, &mut self.entries);
        let r = match find_key(&entries, key) {
            Some(i) => {
                let (_k, v) = entries.remove(i);
                proof {
                    lemma_lookup(s, i as int);
                    lemma_remove(s, i as int);
                    assert(entry_views(entries@) =~= s.remove(i as int));
                }
                Some(v)
            },
            None => {
                proof {
                    assert(entries_map(s).remove(key@) =~= entries_map(s));
                }
                None
            },
        };
        self.entries = entries;
        r
    }

    /// Removes `key` from the map.
    pub fn remove(&mut self, key: &str)
        ensures
            final(self)@ == old(self)@.remove(key@),
    {
        let _ = self.take(key);
    }

    /// The entries, in the order in which their keys were first inserted.
    pub fn entries(&self) -> (r: &Vec<(String, V)>)
        ensures
            entry_views(r@) == self.entry_seq(),
            keys_distinct(self.entry_seq()),
    {
        proof {
            use_type_invariant(self);
        }
        &self.entries
    }
}

} // verus!
