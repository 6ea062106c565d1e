//! A map keyed by text that keeps its entries in insertion order, with every key at most once.
use vstd::prelude::*;

use crate::text::owned;

verus! {

/// Whether some entry of `s` has key `k`.
pub open spec fn has_key<V>(s: Seq<(Seq<char>, V)>, k: Seq<char>) -> bool {
    exists|i: int| 0 <= i < s.len() && (#[trigger] s[i]).0 == k
}

/// The position of an entry with key `k` (meaningful when `has_key(s, k)`).
pub open spec fn key_index<V>(s: Seq<(Seq<char>, V)>, k: Seq<char>) -> int {
    choose|i: int| 0 <= i < s.len() && (#[trigger] s[i]).0 == k
}

/// The value stored under `k`, if any.
pub open spec fn lookup<V>(s: Seq<(Seq<char>, V)>, k: Seq<char>) -> Option<V> {
    if has_key(s, k) {
        Some(s[key_index(s, k)].1)
    } else {
        None
    }
}

/// No key occurs twice.
pub open spec fn keys_distinct<V>(s: Seq<(Seq<char>, V)>) -> bool {
    forall|i: int, j: int|
        0 <= i < s.len() && 0 <= j < s.len() && i != j ==> (#[trigger] s[i]).0 != (#[trigger] s[j]).0
}

/// The keys of `s`, in order.
pub open spec fn keys_of<V>(s: Seq<(Seq<char>, V)>) -> Seq<Seq<char>> {
    s.map_values(|e: (Seq<char>, V)| e.0)
}

/// In a sequence without repeated keys, the entry found for a key is the one that holds it.
pub proof fn lemma_lookup_at<V>(s: Seq<(Seq<char>, V)>, i: int)
    requires
        keys_distinct(s),
        0 <= i < s.len(),
    ensures
        has_key(s, s[i].0),
        key_index(s, s[i].0) == i,
        lookup(s, s[i].0) == Some(s[i].1),
{
    assert(has_key(s, s[i].0));
}

/// `s` after storing `v` under `k`: the entry of `k` takes the new value in place,
/// or a new entry goes last.
pub open spec fn inserted<V>(s: Seq<(Seq<char>, V)>, k: Seq<char>, v: V) -> Seq<(Seq<char>, V)> {
    if has_key(s, k) {
        s.update(key_index(s, k), (k, v))
    } else {
        s.push((k, v))
    }
}

/// `s` without the entry of `k`; the others keep their order.
pub open spec fn removed<V>(s: Seq<(Seq<char>, V)>, k: Seq<char>) -> Seq<(Seq<char>, V)> {
    if has_key(s, k) {
        s.remove(key_index(s, k))
    } else {
        s
    }
}

/// Storing a value and then looking its key up gives that value back; every other key
/// keeps its value, and no key comes to occur twice.
pub proof fn law_lookup_after_insert<V>(s: Seq<(Seq<char>, V)>, k: Seq<char>, v: V, other: Seq<char>)
    requires
        keys_distinct(s),
    ensures
        keys_distinct(inserted(s, k, v)),
        lookup(inserted(s, k, v), k) == Some(v),
        other != k ==> lookup(inserted(s, k, v), other) == lookup(s, other),
{
    let t = inserted(s, k, v);
    if has_key(s, k) {
        let i = key_index(s, k);
        assert(keys_distinct(t));
        lemma_lookup_at(t, i);
        if has_key(s, other) && other != k {
            let j = key_index(s, other);
            lemma_lookup_at(s, j);
            lemma_lookup_at(t, j);
        }
        if has_key(t, other) && other != k {
            let j = key_index(t, other);
            assert(s[j].0 == other);
        }
    } else {
        assert(keys_distinct(t));
        lemma_lookup_at(t, s.len() as int);
        if has_key(s, other) {
            let j = key_index(s, other);
            lemma_lookup_at(s, j);
            lemma_lookup_at(t, j);
        }
        if has_key(t, other) && other != k {
            let j = key_index(t, other);
            assert(s[j].0 == other);
        }
    }
}

/// After removing a key nothing is found under it; every other key keeps its value.
pub proof fn law_lookup_after_remove<V>(s: Seq<(Seq<char>, V)>, k: Seq<char>, other: Seq<char>)
    requires
        keys_distinct(s),
    ensures
        keys_distinct(removed(s, k)),
        lookup(removed(s, k), k) is None,
        other != k ==> lookup(removed(s, k), other) == lookup(s, other),
{
    let t = removed(s, k);
    if has_key(s, k) {
        let i = key_index(s, k);
        assert(keys_distinct(t));
        if has_key(t, k) {
            let j = key_index(t, k);
            if j < i {
                assert(s[j].0 == k);
            } else {
                assert(s[j + 1].0 == k);
            }
        }
        if has_key(s, other) && other != k {
            let j = key_index(s, other);
            lemma_lookup_at(s, j);
            if j < i {
                lemma_lookup_at(t, j);
            } else {
                lemma_lookup_at(t, j - 1);
            }
        }
        if has_key(t, other) && other != k {
            let j = key_index(t, other);
            if j < i {
                assert(s[j].0 == other);
            } else {
                assert(s[j + 1].0 == other);
            }
        }
    }
}

/// The entries of `s` whose flag is set, in order.
pub open spec fn kept<V>(s: Seq<(Seq<char>, V)>, flags: Seq<bool>) -> Seq<(Seq<char>, V)>
    decreases s.len(),
{
    if s.len() == 0 || flags.len() == 0 {
        Seq::empty()
    } else {
        let rest = kept(s.drop_last(), flags.drop_last());
        if flags.last() {
            rest.push(s.last())
        } else {
            rest
        }
    }
}

/// The keys of the entries of `s` whose flag is clear, in order.
pub open spec fn dropped_keys<V>(s: Seq<(Seq<char>, V)>, flags: Seq<bool>) -> Seq<Seq<char>>
    decreases s.len(),
{
    if s.len() == 0 || flags.len() == 0 {
        Seq::empty()
    } else {
        let rest = dropped_keys(s.drop_last(), flags.drop_last());
        if flags.last() {
            rest
        } else {
            rest.push(s.last().0)
        }
    }
}

/// What `kept` holds comes from `s`, with its value, and no key occurs twice.
pub proof fn lemma_kept<V>(s: Seq<(Seq<char>, V)>, flags: Seq<bool>)
    requires
        keys_distinct(s),
        flags.len() == s.len(),
    ensures
        keys_distinct(kept(s, flags)),
        forall|i: int|
            0 <= i < kept(s, flags).len() ==> has_key(s, (#[trigger] kept(s, flags)[i]).0) && lookup(
                s,
                kept(s, flags)[i].0,
            ) == Some(kept(s, flags)[i].1),
    decreases s.len(),
{
    if s.len() > 0 {
        let p = s.drop_last();
        let f = flags.drop_last();
        assert(keys_distinct(p));
        lemma_kept(p, f);
        let r = kept(p, f);
        let n = s.len() - 1;
        lemma_lookup_at(s, n);
        assert forall|i: int| 0 <= i < r.len() implies has_key(s, (#[trigger] r[i]).0) && lookup(s, r[i].0)
            == Some(r[i].1) && r[i].0 != s[n].0 by {
            let j = key_index(p, r[i].0);
            lemma_lookup_at(p, j);
            lemma_lookup_at(s, j);
        }
        if flags.last() {
            let t = r.push(s[n]);
            assert(kept(s, flags) == t);
            assert forall|i: int| 0 <= i < t.len() implies has_key(s, (#[trigger] t[i]).0) && lookup(s, t[i].0)
                == Some(t[i].1) by {
                if i < r.len() {
                    assert(t[i] == r[i]);
                }
            }
        }
    }
}

/// Entries with their values taken as text.
pub open spec fn text_entries(s: Seq<(Seq<char>, String)>) -> Seq<(Seq<char>, Seq<char>)> {
    s.map_values(|e: (Seq<char>, String)| (e.0, e.1@))
}

pub proof fn lemma_text_entries_lookup(s: Seq<(Seq<char>, String)>, k: Seq<char>)
    requires
        keys_distinct(s),
    ensures
        keys_distinct(text_entries(s)),
        has_key(text_entries(s), k) == has_key(s, k),
        has_key(s, k) ==> key_index(text_entries(s), k) == key_index(s, k),
        lookup(text_entries(s), k) == match lookup(s, k) {
            Some(v) => Some(v@),
            None => None::<Seq<char>>,
        },
{
    let t = text_entries(s);
    assert(keys_distinct(t));
    if has_key(s, k) {
        let i = key_index(s, k);
        lemma_lookup_at(s, i);
        lemma_lookup_at(t, i);
    }
    if has_key(t, k) {
        let i = key_index(t, k);
        assert(s[i].0 == k);
    }
}

pub proof fn lemma_text_entries_inserted(s: Seq<(Seq<char>, String)>, k: Seq<char>, v: String)
    requires
        keys_distinct(s),
    ensures
        text_entries(inserted(s, k, v)) == inserted(text_entries(s), k, v@),
{
    lemma_text_entries_lookup(s, k);
    if has_key(s, k) {
        assert(text_entries(inserted(s, k, v)) =~= inserted(text_entries(s), k, v@));
    } else {
        assert(text_entries(inserted(s, k, v)) =~= inserted(text_entries(s), k, v@));
    }
}

pub proof fn lemma_text_entries_removed(s: Seq<(Seq<char>, String)>, k: Seq<char>)
    requires
        keys_distinct(s),
    ensures
        text_entries(removed(s, k)) == removed(text_entries(s), k),
{
    lemma_text_entries_lookup(s, k);
    assert(text_entries(removed(s, k)) =~= removed(text_entries(s), k));
}

/// Of a sequence without repeated keys, filtering by flags keeps exactly the keys whose
/// flag is set, and reports exactly the others as dropped.
pub proof fn law_kept_exactly_flagged<V>(s: Seq<(Seq<char>, V)>, flags: Seq<bool>)
    requires
        keys_distinct(s),
        flags.len() == s.len(),
    ensures
        forall|i: int| 0 <= i < s.len() ==> has_key(kept(s, flags), (#[trigger] s[i]).0) == flags[i],
        forall|i: int| 0 <= i < s.len() ==> dropped_keys(s, flags).contains((#[trigger] s[i]).0) == !flags[i],
    decreases s.len(),
{
    if s.len() > 0 {
        let p = s.drop_last();
        let f = flags.drop_last();
        let n = s.len() - 1;
        assert(keys_distinct(p));
        law_kept_exactly_flagged(p, f);
        lemma_kept(p, f);
        let r = kept(p, f);
        let d = dropped_keys(p, f);
        assert forall|i: int| 0 <= i < s.len() implies has_key(kept(s, flags), (#[trigger] s[i]).0) == flags[i]
            && dropped_keys(s, flags).contains(s[i].0) == !flags[i] by {
            if i < n {
                assert(s[i] == p[i]);
                assert(s[i].0 != s[n].0);
                if flags.last() {
                    let t = r.push(s[n]);
                    if has_key(t, s[i].0) {
                        let j = key_index(t, s[i].0);
                        if j < r.len() {
                            assert(r[j].0 == s[i].0);
                        }
                    }
                    if has_key(r, s[i].0) {
                        let j = key_index(r, s[i].0);
                        assert(t[j] == r[j]);
                    }
                } else {
                    let t = d.push(s[n].0);
                    if t.contains(s[i].0) {
                        let j = choose|j: int| 0 <= j < t.len() && t[j] == s[i].0;
                        if j < d.len() {
                            assert(d[j] == s[i].0);
                        }
                    }
                    if d.contains(s[i].0) {
                        let j = choose|j: int| 0 <= j < d.len() && d[j] == s[i].0;
                        assert(t[j] == d[j]);
                    }
                }
            } else {
                if flags.last() {
                    let t = r.push(s[n]);
                    assert(t[r.len() as int].0 == s[n].0);
                    if d.contains(s[n].0) {
                        let j = choose|j: int| 0 <= j < d.len() && d[j] == s[n].0;
                        lemma_dropped_from(p, f, j);
                    }
                } else {
                    let t = d.push(s[n].0);
                    assert(t[d.len() as int] == s[n].0);
                    if has_key(r, s[n].0) {
                        let j = key_index(r, s[n].0);
                        assert(has_key(p, r[j].0));
                        let k = key_index(p, r[j].0);
                        assert(p[k].0 == s[n].0);
                        assert(s[k].0 == s[n].0);
                    }
                }
            }
        }
    }
}

proof fn lemma_dropped_from<V>(s: Seq<(Seq<char>, V)>, flags: Seq<bool>, j: int)
    requires
        flags.len() == s.len(),
        0 <= j < dropped_keys(s, flags).len(),
    ensures
        has_key(s, dropped_keys(s, flags)[j]),
    decreases s.len(),
{
    if s.len() > 0 {
        let p = s.drop_last();
        let f = flags.drop_last();
        let d = dropped_keys(p, f);
        if j < d.len() {
            lemma_dropped_from(p, f, j);
            let k = key_index(p, d[j]);
            assert(s[k] == p[k]);
        } else {
            assert(s[s.len() - 1].0 == dropped_keys(s, flags)[j]);
        }
    }
}

/// Text-keyed map with insertion order; its view is the sequence of its entries.
pub struct StringMap<V> {
    entries: Vec<(String, V)>,
}

impl<V> View for StringMap<V> {
    type V = Seq<(Seq<char>, V)>;

    closed spec fn view(&self) -> Seq<(Seq<char>, V)> {
        self.entries@.map_values(|e: (String, V)| (e.0@, e.1))
    }
}

impl<V> StringMap<V> {
    /// No key occurs twice.
    #[verifier::type_invariant]
    pub open spec fn inv(&self) -> bool {
        keys_distinct(self@)
    }

    /// An empty map.
    pub fn new() -> (m: Self)
        ensures
            m@ == Seq::<(Seq<char>, V)>::empty(),
    {
        let m = StringMap { entries: Vec::new() };
        assert(m@ =~= Seq::<(Seq<char>, V)>::empty());
        m
    }

    /// The number of entries (no key occurs twice).
    pub fn len(&self) -> (n: usize)
        ensures
            n == self@.len(),
            keys_distinct(self@),
    {
        proof {
            use_type_invariant(self);
        }
        self.entries.len()
    }

    /// The position of the entry with key `key`.
    pub fn find(&self, key: &str) -> (r: Option<usize>)
        ensures
            keys_distinct(self@),
            r is None <==> !has_key(self@, key@),
            r matches Some(i) ==> i < self@.len() && self@[i as int].0 == key@ && key_index(self@, key@)
                == i,
    {
        proof {
            use_type_invariant(self);
        }
        let wanted = owned(key);
        let n = self.entries.len();
        let mut i: usize = 0;
        while i < n
            invariant
                n == self.entries@.len(),
                n == self@.len(),
                i <= n,
                wanted@ == key@,
                keys_distinct(self@),
                forall|j: int| 0 <= j < i ==> (#[trigger] self@[j]).0 != key@,
            decreases n - i,
        {
            assert(self@[i as int].0 == self.entries@[i as int].0@);
            if self.entries[i].0 == wanted {
                proof {
                    lemma_lookup_at(self@, i as int);
                }
                return Some(i);
            }
            i = i + 1;
        }
        None
    }

    /// Whether an entry has key `key`.
    pub fn contains_key(&self, key: &str) -> (b: bool)
        ensures
            b == has_key(self@, key@),
    {
        self.find(key).is_some()
    }

    /// The value under `key`, if any.
    pub fn get(&self, key: &str) -> (r: Option<&V>)
        ensures
            r matches Some(v) ==> lookup(self@, key@) == Some(*v),
            r is None ==> lookup(self@, key@) is None,
    {
        match self.find(key) {
            Some(i) => Some(&self.entries[i].1),
            None => None,
        }
    }

    /// The key of the entry at position `i`.
    pub fn key_at(&self, i: usize) -> (k: &String)
        requires
            i < self@.len(),
        ensures
            k@ == self@[i as int].0,
    {
        &self.entries[i].0
    }

    /// The value of the entry at position `i`.
    pub fn value_at(&self, i: usize) -> (v: &V)
        requires
            i < self@.len(),
        ensures
            *v == self@[i as int].1,
    {
        &self.entries[i].1
    }

    /// Stores `value` under `key` and gives back the value it replaces, as `HashMap::insert` does.
    pub fn insert(&mut self, key: String, value: V) -> (previous: Option<V>)
        ensures
            final(self)@ == inserted(old(self)@, key@, value),
            previous == lookup(old(self)@, key@),
    {
        let ghost before = self@;
        let found = self.find(key.as_str());
        let mut entries: Vec<(String, V)> = Vec::new();
        std::mem::swap(&mut entries, &mut self.entries);
        assert(entries@.map_values(|e: (String, V)| (e.0@, e.1)) =~= before);
        let ghost k = key@;
        let previous = match found {
            Some(i) => {
                proof {
                    lemma_lookup_at(before, i as int);
                }
                let (_, previous) = entries.remove(i);
                entries.insert(i, (key, value));
                assert(entries@.map_values(|e: (String, V)| (e.0@, e.1)) =~= before.update(
                    i as int,
                    (k, value),
                ));
                Some(previous)
            },
            None => {
                entries.push((key, value));
                assert(entries@.map_values(|e: (String, V)| (e.0@, e.1)) =~= before.push((k, value)));
                None
            },
        };
        proof {
            law_lookup_after_insert(before, k, value, k);
        }
        self.entries = entries;
        previous
    }

    /// Removes the entry of `key` and gives back its value, as `HashMap::remove` does.
    pub fn remove(&mut self, key: &str) -> (previous: Option<V>)
        ensures
            final(self)@ == removed(old(self)@, key@),
            previous == lookup(old(self)@, key@),
    {
        let ghost before = self@;
        match self.find(key) {
            Some(i) => {
                proof {
                    lemma_lookup_at(before, i as int);
                    law_lookup_after_remove(before, key@, key@);
                }
                let mut entries: Vec<(String, V)> = Vec::new();
                std::mem::swap(&mut entries, &mut self.entries);
                assert(entries@.map_values(|e: (String, V)| (e.0@, e.1)) =~= before);
                let (_, previous) = entries.remove(i);
                assert(entries@.map_values(|e: (String, V)| (e.0@, e.1)) =~= before.remove(i as int));
                self.entries = entries;
                Some(previous)
            },
            None => None,
        }
    }

    /// Keeps the entries whose flag is set, in order, and drops the others.
    pub fn retain_flagged(&mut self, flags: &Vec<bool>)
        requires
            flags@.len() == old(self)@.len(),
        ensures
            final(self)@ == kept(old(self)@, flags@),
    {
        proof {
            use_type_invariant(&*self);
        }
        let ghost orig = self@;
        let mut entries: Vec<(String, V)> = Vec::new();
        std::mem::swap(&mut entries, &mut self.entries);
        let ghost orig_entries = entries@;
        assert(orig_entries.map_values(|e: (String, V)| (e.0@, e.1)) =~= orig);
        let mut result: Vec<(String, V)> = Vec::new();
        let n = flags.len();
        let mut i: usize = 0;
        while i < n
            invariant
                n == flags@.len(),
                n == orig.len(),
                i <= n,
                orig_entries.map_values(|e: (String, V)| (e.0@, e.1)) == orig,
                entries@ =~= orig_entries.skip(i as int),
                result@.map_values(|e: (String, V)| (e.0@, e.1)) == kept(
                    orig.take(i as int),
                    flags@.take(i as int),
                ),
            decreases n - i,
        {
            let e = entries.remove(0);
            assert(e == orig_entries[i as int]);
            let ghost before = result@;
            proof {
                assert(orig.take(i + 1).drop_last() =~= orig.take(i as int));
                assert(flags@.take(i + 1).drop_last() =~= flags@.take(i as int));
                assert(orig.take(i + 1).last() == orig[i as int]);
            }
            if flags[i] {
                result.push(e);
                assert(result@.map_values(|e: (String, V)| (e.0@, e.1)) =~= before.map_values(
                    |e: (String, V)| (e.0@, e.1),
                ).push(orig[i as int]));
            }
            i = i + 1;
        }
        assert(orig.take(n as int) =~= orig);
        assert(flags@.take(n as int) =~= flags@);
        proof {
            lemma_kept(orig, flags@);
        }
        self.entries = result;
    }

    /// The keys, in order.
    pub fn keys(&self) -> (ks: Vec<String>)
        ensures
            ks@.len() == self@.len(),
            forall|i: int| 0 <= i < ks@.len() ==> (#[trigger] ks@[i])@ == self@[i].0,
    {
        let n = self.entries.len();
        let mut ks: Vec<String> = Vec::new();
        let mut i: usize = 0;
        while i < n
            invariant
                n == self.entries@.len(),
                n == self@.len(),
                i <= n,
                ks@.len() == i,
                forall|j: int| 0 <= j < i ==> (#[trigger] ks@[j])@ == self@[j].0,
            decreases n - i,
        {
            ks.push(self.entries[i].0.clone());
            i = i + 1;
        }
        ks
    }
}

} // verus!
