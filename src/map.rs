use vstd::prelude::*;

use crate::structure::{GKey, GValue};
use crate::graphson::{mkey_index, mlookup, mstore};
use crate::model::{entries_model, key_model, lemma_entries_model, value_model, KeyModel};
use crate::text::str_eq;

verus! {

/// The text of a string key.
pub open spec fn key_text(k: GKey) -> Option<Seq<char>> {
    match k {
        GKey::String(s) => Some(s@),
        _ => None,
    }
}

/// Index of the first entry whose key is the string `k`, or -1.
pub open spec fn key_index(s: Seq<(GKey, GValue)>, k: Seq<char>) -> int
    decreases s.len(),
{
    if s.len() == 0 {
        -1
    } else {
        let i = key_index(s.drop_last(), k);
        if i >= 0 {
            i
        } else if key_text(s.last().0) == Some(k) {
            s.len() - 1
        } else {
            -1
        }
    }
}

/// The value under the string key `k`.
pub open spec fn lookup(s: Seq<(GKey, GValue)>, k: Seq<char>) -> Option<GValue> {
    let i = key_index(s, k);
    if 0 <= i < s.len() {
        Some(s[i].1)
    } else {
        None
    }
}

/// The entries after storing `v` under the string key `k`: an entry with that
/// key is replaced in place, otherwise the pair is appended.
pub open spec fn store(s: Seq<(GKey, GValue)>, k: String, v: GValue) -> Seq<(GKey, GValue)> {
    let i = key_index(s, k@);
    if 0 <= i < s.len() {
        s.update(i, (GKey::String(k), v))
    } else {
        s.push((GKey::String(k), v))
    }
}

/// No string key occurs twice.
pub open spec fn keys_unique(s: Seq<(GKey, GValue)>) -> bool {
    forall|i: int, j: int|
        0 <= i < j < s.len() && key_text(s[i].0) is Some ==> key_text(s[i].0) != key_text(s[j].0)
}

pub proof fn lemma_key_index(s: Seq<(GKey, GValue)>, k: Seq<char>)
    ensures
        -1 <= key_index(s, k) < s.len(),
        key_index(s, k) >= 0 ==> key_text(s[key_index(s, k)].0) == Some(k),
        key_index(s, k) == -1 ==> forall|j: int|
            0 <= j < s.len() ==> key_text(#[trigger] s[j].0) != Some(k),
    decreases s.len(),
{
    if s.len() > 0 {
        lemma_key_index(s.drop_last(), k);
        if key_index(s, k) == -1 {
            assert forall|j: int| 0 <= j < s.len() implies key_text(#[trigger] s[j].0) != Some(k) by {
                if j < s.len() - 1 {
                    assert(s[j] == s.drop_last()[j]);
                }
            }
        }
    }
}

pub proof fn lemma_key_index_prefix(s: Seq<(GKey, GValue)>, k: Seq<char>, n: int)
    requires
        0 <= n <= s.len(),
        key_index(s.subrange(0, n), k) >= 0,
    ensures
        key_index(s, k) == key_index(s.subrange(0, n), k),
    decreases s.len() - n,
{
    if n < s.len() {
        assert(s.subrange(0, n + 1).drop_last() == s.subrange(0, n));
        lemma_key_index_prefix(s, k, n + 1);
    } else {
        assert(s.subrange(0, n) == s);
    }
}

/// With unique keys, the entry at a string key's position is its first.
pub proof fn lemma_key_index_unique(s: Seq<(GKey, GValue)>, i: int, k: Seq<char>)
    requires
        keys_unique(s),
        0 <= i < s.len(),
        key_text(s[i].0) == Some(k),
    ensures
        key_index(s, k) == i,
{
    lemma_key_index(s, k);
    let j = key_index(s, k);
    if j != i && j >= 0 {
        if j < i {
            assert(key_text(s[j].0) != key_text(s[i].0));
        } else {
            assert(key_text(s[i].0) != key_text(s[j].0));
        }
    }
}

pub proof fn lemma_store(s: Seq<(GKey, GValue)>, k: String, v: GValue)
    requires
        keys_unique(s),
    ensures
        keys_unique(store(s, k, v)),
        lookup(store(s, k, v), k@) == Some(v),
        forall|k2: Seq<char>| k2 != k@ ==> lookup(store(s, k, v), k2) == lookup(s, k2),
{
    lemma_key_index(s, k@);
    let t = store(s, k, v);
    let i = key_index(s, k@);
    assert(forall|a: int| 0 <= a < s.len() && a != i ==> t[a] == s[a]);
    assert(keys_unique(t));
    if i >= 0 {
        lemma_key_index_unique(t, i, k@);
    } else {
        lemma_key_index_unique(t, s.len() as int, k@);
    }
    assert forall|k2: Seq<char>| k2 != k@ implies lookup(t, k2) == lookup(s, k2) by {
        lemma_key_index(s, k2);
        lemma_key_index(t, k2);
        let a = key_index(s, k2);
        if a >= 0 {
            lemma_key_index_unique(t, a, k2);
        } else {
            let b = key_index(t, k2);
            if b >= 0 {
                assert(b < s.len() ==> t[b] == s[b]);
            }
        }
    }
}

pub proof fn lemma_key_index_model(s: Seq<(GKey, GValue)>, k: Seq<char>)
    ensures
        key_index(s, k) == mkey_index(entries_model(s), k),
    decreases s.len(),
{
    if s.len() > 0 {
        let t = s.subrange(0, s.len() - 1);
        assert(s.drop_last() == t);
        lemma_key_index_model(t, k);
        lemma_entries_model(s);
        let m = entries_model(s);
        assert(m == entries_model(t).push((key_model(s[s.len() - 1].0), value_model(s[s.len() - 1].1))));
        assert(m.drop_last() == entries_model(t));
        assert(m.last().0 == key_model(s.last().0));
        match s.last().0 {
            GKey::String(x) => {
                assert(key_model(s.last().0) == KeyModel::Str(x@));
            },
            GKey::Token(x) => {
                assert(key_model(s.last().0) == KeyModel::Token(x.name@));
            },
            GKey::Vertex(_) => {},
            GKey::Edge(_) => {},
        }
        assert(key_text(s.last().0) == Some(k) <==> key_model(s.last().0) == KeyModel::Str(k));
        assert(key_index(s, k) == (if key_index(t, k) >= 0 {
            key_index(t, k)
        } else if key_text(s.last().0) == Some(k) {
            s.len() - 1
        } else {
            -1
        }));
        assert(mkey_index(m, k) == (if mkey_index(entries_model(t), k) >= 0 {
            mkey_index(entries_model(t), k)
        } else if m.last().0 == KeyModel::Str(k) {
            m.len() - 1
        } else {
            -1
        }));
    } else {
        assert(entries_model(s).len() == 0);
    }
}

pub proof fn lemma_store_model(s: Seq<(GKey, GValue)>, k: String, v: GValue)
    ensures
        entries_model(store(s, k, v)) == mstore(entries_model(s), k@, value_model(v)),
{
    lemma_key_index_model(s, k@);
    lemma_key_index(s, k@);
    lemma_entries_model(s);
    lemma_entries_model(store(s, k, v));
    assert(entries_model(store(s, k, v)) =~= mstore(entries_model(s), k@, value_model(v)));
}

/// A mapping from keys to graph values; a key occurs at most once.
///
/// Entries keep the order in which their keys first arrived, which is what
/// equality compares.
#[derive(Debug, PartialEq, Eq, Hash)]
pub struct GMap {
    pub entries: Vec<(GKey, GValue)>,
}

impl View for GMap {
    type V = Seq<(GKey, GValue)>;

    open spec fn view(&self) -> Seq<(GKey, GValue)> {
        self.entries@
    }
}

impl GMap {
    pub open spec fn wf(&self) -> bool {
        keys_unique(self@)
    }

    /// An empty map.
    pub fn new() -> (r: GMap)
        ensures
            r@ == Seq::<(GKey, GValue)>::empty(),
            r.wf(),
    {
        GMap { entries: Vec::new() }
    }

    /// The value under the string key `key`.
    pub fn get(&self, key: &str) -> (r: Option<&GValue>)
        ensures
            match r {
                Some(v) => lookup(self@, key@) == Some(*v) && mlookup(self.model(), key@) == Some(
                    value_model(*v),
                ),
                None => lookup(self@, key@) is None && mlookup(self.model(), key@) is None,
            },
    {
        proof {
            lemma_key_index_model(self@, key@);
            lemma_entries_model(self@);
        }
        match self.position(key) {
            Some(i) => Some(&self.entries[i].1),
            None => None,
        }
    }

    fn position(&self, key: &str) -> (r: Option<usize>)
        ensures
            match r {
                Some(i) => i as int == key_index(self@, key@) && i < self@.len(),
                None => key_index(self@, key@) == -1,
            },
    {
        let mut i: usize = 0;
        while i < self.entries.len()
            invariant
                i <= self@.len(),
                key_index(self@.subrange(0, i as int), key@) == -1,
            decreases self@.len() - i,
        {
            assert(self@.subrange(0, i + 1).drop_last() == self@.subrange(0, i as int));
            match &self.entries[i].0 {
                GKey::String(s) => {
                    if str_eq(s.as_str(), key) {
                        proof {
                            lemma_key_index_prefix(self@, key@, i as int + 1);
                        }
                        return Some(i);
                    }
                },
                _ => {},
            }
            i += 1;
        }
        proof {
            assert(self@.subrange(0, i as int) == self@);
        }
        None
    }

    /// Stores `value` under the string key `key`, replacing the value that an
    /// equal key held.
    pub fn insert(&mut self, key: String, value: GValue)
        requires
            old(self).wf(),
        ensures
            final(self)@ == store(old(self)@, key, value),
            final(self).model() == mstore(old(self).model(), key@, value_model(value)),
            final(self).wf(),
    {
        proof {
            lemma_store_model(self@, key, value);
            lemma_store(self@, key, value);
        }
        match self.position(key.as_str()) {
            Some(i) => {
                self.entries.set(i, (GKey::String(key), value));
            },
            None => {
                self.entries.push((GKey::String(key), value));
            },
        }
    }

    /// Removes the entry under the string key `key` and returns its value.
    pub fn remove(&mut self, key: &str) -> (r: Option<GValue>)
        requires
            old(self).wf(),
        ensures
            final(self).wf(),
            match r {
                Some(v) => lookup(old(self)@, key@) == Some(v) && final(self)@ == old(self)@.remove(
                    key_index(old(self)@, key@),
                ),
                None => lookup(old(self)@, key@) is None && final(self)@ == old(self)@,
            },
    {
        match self.position(key) {
            Some(i) => {
                let ghost before = self@;
                let (_, v) = self.entries.remove(i);
                proof {
                    assert forall|a: int, b: int|
                        0 <= a < b < self@.len() && key_text(self@[a].0) is Some implies key_text(
                        self@[a].0,
                    ) != key_text(self@[b].0) by {
                        let a0 = if a < i { a } else { a + 1 };
                        let b0 = if b < i { b } else { b + 1 };
                        assert(self@[a] == before[a0]);
                        assert(self@[b] == before[b0]);
                    }
                }
                Some(v)
            },
            None => None,
        }
    }

    /// The entries, in order.
    pub fn iter(&self) -> (r: &[(GKey, GValue)])
        ensures
            r@ == self@,
    {
        self.entries.as_slice()
    }

    pub fn len(&self) -> (r: usize)
        ensures
            r == self@.len(),
    {
        self.entries.len()
    }

    pub fn is_empty(&self) -> (r: bool)
        ensures
            r == (self@.len() == 0),
    {
        self.entries.len() == 0
    }
}

} // verus!
