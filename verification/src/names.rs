use vstd::prelude::*;

use crate::text::bytes_eq;

verus! {

/// A table from names to values: each name occurs at most once, and a
/// name keeps its place when its value is replaced.
pub struct NameMap<V> {
    pub entries: Vec<(Vec<u8>, V)>,
}

/// The entries of a table, as values.
pub open spec fn entries_view<V: View>(s: Seq<(Vec<u8>, V)>) -> Seq<(Seq<u8>, V::V)> {
    s.map_values(|e: (Vec<u8>, V)| (e.0@, e.1@))
}

/// The index of the first entry with the given name.
pub open spec fn find_key<V>(s: Seq<(Seq<u8>, V)>, k: Seq<u8>) -> Option<int>
    decreases s.len(),
{
    if s.len() == 0 {
        None
    } else {
        match find_key(s.drop_last(), k) {
            Some(i) => Some(i),
            None => if s.last().0 == k {
                Some(s.len() - 1)
            } else {
                None
            },
        }
    }
}

/// The value of a name.
pub open spec fn lookup<V>(s: Seq<(Seq<u8>, V)>, k: Seq<u8>) -> Option<V> {
    match find_key(s, k) {
        Some(i) => Some(s[i].1),
        None => None,
    }
}

/// A table with a name set to a value: in its place if it is there, else at the end.
pub open spec fn insert_entry<V>(s: Seq<(Seq<u8>, V)>, k: Seq<u8>, v: V) -> Seq<(Seq<u8>, V)> {
    match find_key(s, k) {
        Some(i) => s.update(i, (k, v)),
        None => s.push((k, v)),
    }
}

/// A table without a name.
pub open spec fn remove_entry<V>(s: Seq<(Seq<u8>, V)>, k: Seq<u8>) -> Seq<(Seq<u8>, V)> {
    match find_key(s, k) {
        Some(i) => s.remove(i),
        None => s,
    }
}

/// What `find_key` finds: the first entry with the name.
pub proof fn lemma_find_key<V>(s: Seq<(Seq<u8>, V)>, k: Seq<u8>)
    ensures
        match find_key(s, k) {
            Some(i) => 0 <= i < s.len() && s[i].0 == k && forall|j: int| 0 <= j < i ==> s[j].0 != k,
            None => forall|j: int| 0 <= j < s.len() ==> s[j].0 != k,
        },
    decreases s.len(),
{
    if s.len() > 0 {
        lemma_find_key(s.drop_last(), k);
        assert(forall|j: int| 0 <= j < s.len() - 1 ==> s.drop_last()[j] == s[j]);
    }
}

/// `find_key` is the first entry with the name.
pub proof fn lemma_find_key_first<V>(s: Seq<(Seq<u8>, V)>, k: Seq<u8>, i: int)
    requires
        0 <= i < s.len(),
        s[i].0 == k,
        forall|j: int| 0 <= j < i ==> s[j].0 != k,
    ensures
        find_key(s, k) == Some(i),
{
    lemma_find_key(s, k);
    match find_key(s, k) {
        Some(m) => {
            if m < i {
                assert(s[m].0 != k);
            }
            if m > i {
                assert(s[i].0 != k);
            }
        },
        None => {
            assert(s[i].0 != k);
        },
    }
}

/// `find_key` finds nothing where no entry has the name.
pub proof fn lemma_find_key_none<V>(s: Seq<(Seq<u8>, V)>, k: Seq<u8>)
    requires
        forall|j: int| 0 <= j < s.len() ==> s[j].0 != k,
    ensures
        find_key(s, k) is None,
{
    lemma_find_key(s, k);
    if let Some(m) = find_key(s, k) {
        assert(s[m].0 != k);
    }
}

/// Whether no name occurs twice among the entries.
pub open spec fn unique_names<V>(s: Seq<(Seq<u8>, V)>) -> bool {
    forall|i: int, j: int| 0 <= i < j < s.len() ==> s[i].0 != s[j].0
}

/// Read after write: after a name is set, looking it up gives the value
/// set, and looking up any other name gives what it gave before.
pub proof fn law_lookup_insert<V>(s: Seq<(Seq<u8>, V)>, k: Seq<u8>, v: V, other: Seq<u8>)
    ensures
        lookup(insert_entry(s, k, v), k) == Some(v),
        other != k ==> lookup(insert_entry(s, k, v), other) == lookup(s, other),
{
    lemma_find_key(s, k);
    lemma_find_key(s, other);
    let t = insert_entry(s, k, v);
    lemma_find_key(t, k);
    lemma_find_key(t, other);
    match find_key(s, k) {
        Some(i) => {
            assert(t[i].0 == k);
            lemma_find_key_first(t, k, i);
            if other != k {
                match find_key(s, other) {
                    Some(m) => {
                        assert(t[m] == s[m]);
                        lemma_find_key_first(t, other, m);
                    },
                    None => {
                        lemma_find_key_none(t, other);
                    },
                }
            }
        },
        None => {
            lemma_find_key_first(t, k, s.len() as int);
            if other != k {
                match find_key(s, other) {
                    Some(m) => {
                        assert(t[m] == s[m]);
                        lemma_find_key_first(t, other, m);
                    },
                    None => {
                        lemma_find_key_none(t, other);
                    },
                }
            }
        },
    }
}

/// Setting names keeps each name at most once.
pub proof fn law_insert_unique<V>(s: Seq<(Seq<u8>, V)>, k: Seq<u8>, v: V)
    requires
        unique_names(s),
    ensures
        unique_names(insert_entry(s, k, v)),
        insert_entry(s, k, v).len() == s.len() + (if find_key(s, k) is Some { 0int } else { 1int }),
{
    lemma_find_key(s, k);
}

/// Removing a name from a table where each name occurs once: looking it
/// up finds nothing, and any other name gives what it gave before.
pub proof fn law_lookup_remove<V>(s: Seq<(Seq<u8>, V)>, k: Seq<u8>, other: Seq<u8>)
    requires
        unique_names(s),
    ensures
        lookup(remove_entry(s, k), k) is None,
        other != k ==> lookup(remove_entry(s, k), other) == lookup(s, other),
        unique_names(remove_entry(s, k)),
{
    lemma_find_key(s, k);
    lemma_find_key(s, other);
    let t = remove_entry(s, k);
    lemma_find_key(t, k);
    lemma_find_key(t, other);
    match find_key(s, k) {
        Some(i) => {
            assert(forall|j: int| 0 <= j < t.len() ==> t[j] == (if j < i { s[j] } else { s[j + 1] }));
            assert(forall|j: int| 0 <= j < t.len() ==> t[j].0 != k) by {
                assert forall|j: int| 0 <= j < t.len() implies t[j].0 != k by {
                    if j >= i {
                        assert(s[i].0 != s[j + 1].0);
                    }
                }
            }
            lemma_find_key_none(t, k);
            if other != k {
                match find_key(s, other) {
                    Some(m) => {
                        if m < i {
                            assert(t[m] == s[m]);
                            lemma_find_key_first(t, other, m);
                        } else {
                            assert(t[m - 1] == s[m]);
                            lemma_find_key_first(t, other, m - 1);
                        }
                    },
                    None => {
                        lemma_find_key_none(t, other);
                    },
                }
            }
        },
        None => {},
    }
}

impl<V: View> NameMap<V> {
    pub open spec fn view_entries(&self) -> Seq<(Seq<u8>, V::V)> {
        entries_view(self.entries@)
    }

    /// The table's invariant: each name occurs at most once.
    pub open spec fn wf(&self) -> bool {
        unique_names(self.view_entries())
    }

    pub fn new() -> (r: Self)
        ensures
            r.view_entries() == Seq::<(Seq<u8>, V::V)>::empty(),
            r.wf(),
    {
        let r = NameMap { entries: Vec::new() };
        assert(r.view_entries() =~= Seq::<(Seq<u8>, V::V)>::empty());
        r
    }

    /// The place of a name.
    pub fn find(&self, key: &[u8]) -> (r: Option<usize>)
        ensures
            match r {
                Some(i) => find_key(self.view_entries(), key@) == Some(i as int),
                None => find_key(self.view_entries(), key@) is None,
            },
    {
        let ghost s = self.view_entries();
        let mut i: usize = 0;
        while i < self.entries.len()
            invariant
                0 <= i <= self.entries@.len(),
                s == self.view_entries(),
                s.len() == self.entries@.len(),
                forall|j: int| 0 <= j < i ==> s[j].0 != key@,
            decreases self.entries@.len() - i,
        {
            if bytes_eq(self.entries[i].0.as_slice(), key) {
                proof {
                    lemma_find_key_first(s, key@, i as int);
                }
                return Some(i);
            }
            i = i + 1;
        }
        proof {
            lemma_find_key_none(s, key@);
        }
        None
    }

    /// The value of a name.
    pub fn get(&self, key: &[u8]) -> (r: Option<&V>)
        ensures
            match lookup(self.view_entries(), key@) {
                Some(v) => r is Some && r.unwrap()@ == v,
                None => r is None,
            },
    {
        proof {
            lemma_find_key(self.view_entries(), key@);
        }
        match self.find(key) {
            Some(i) => {
                assert(self.view_entries()[i as int].1 == self.entries@[i as int].1@);
                Some(&self.entries[i].1)
            },
            None => None,
        }
    }

    /// Whether a name has a value.
    pub fn contains_key(&self, key: &[u8]) -> (r: bool)
        ensures
            r == (find_key(self.view_entries(), key@) is Some),
    {
        self.find(key).is_some()
    }

    /// Sets a name to a value.
    pub fn insert(&mut self, key: Vec<u8>, value: V)
        ensures
            final(self).view_entries() == insert_entry(old(self).view_entries(), key@, value@),
            old(self).wf() ==> final(self).wf(),
    {
        proof {
            lemma_find_key(self.view_entries(), key@);
            if self.wf() {
                law_insert_unique(self.view_entries(), key@, value@);
            }
        }
        match self.find(key.as_slice()) {
            Some(i) => {
                let ghost kv = key@;
                let ghost vv = value@;
                self.entries.set(i, (key, value));
                assert(final(self).view_entries() =~= old(self).view_entries().update(i as int, (kv, vv)));
            },
            None => {
                let ghost kv = key@;
                let ghost vv = value@;
                self.entries.push((key, value));
                assert(final(self).view_entries() =~= old(self).view_entries().push((kv, vv)));
            },
        }
    }

    /// Takes a name out.
    pub fn remove(&mut self, key: &[u8])
        ensures
            final(self).view_entries() == remove_entry(old(self).view_entries(), key@),
            old(self).wf() ==> final(self).wf(),
    {
        proof {
            lemma_find_key(self.view_entries(), key@);
            if self.wf() {
                law_lookup_remove(self.view_entries(), key@, key@);
            }
        }
        match self.find(key) {
            Some(i) => {
                let ghost before = self.entries@;
                let _ = self.entries.remove(i);
                assert(self.entries@ =~= before.remove(i as int));
                assert(self.view_entries() =~= old(self).view_entries().remove(i as int));
            },
            None => {
                assert(self.view_entries() == remove_entry(old(self).view_entries(), key@));
            },
        }
    }

    pub fn len(&self) -> (r: usize)
        ensures
            r == self.view_entries().len(),
    {
        self.entries.len()
    }
}

} // verus!
