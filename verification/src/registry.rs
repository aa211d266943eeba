//! Flat lookup table from menu-item identifier to callback handle.
//!
//! The registry is rebuilt wholesale every time the menu is replaced; during
//! event dispatch the identifier carried by a click event is looked up here.
//! Keys are unique and a later insertion for an existing key overwrites the
//! earlier one (last-write-wins).

use vstd::prelude::*;

verus! {

/// One identifier-to-callback binding.
struct RegistryEntry {
    key: String,
    handle: u64,
}

/// Abstraction of a sequence of bindings as a map, where a later entry for
/// the same key wins over an earlier one.
spec fn entries_map(s: Seq<RegistryEntry>) -> Map<Seq<char>, u64>
    decreases s.len(),
{
    if s.len() == 0 {
        Map::empty()
    } else {
        entries_map(s.drop_last()).insert(s.last().key@, s.last().handle)
    }
}

/// Flat mapping from identifier to callback handle.
pub struct CallbackRegistry {
    entries: Vec<RegistryEntry>,
}

impl View for CallbackRegistry {
    type V = Map<Seq<char>, u64>;

    closed spec fn view(&self) -> Map<Seq<char>, u64> {
        entries_map(self.entries@)
    }
}

/// A key occurs in `s` at some position.
spec fn has_key(s: Seq<RegistryEntry>, k: Seq<char>) -> bool {
    exists|i: int| 0 <= i < s.len() && s[i].key@ == k
}

proof fn lemma_entries_map_contains(s: Seq<RegistryEntry>, k: Seq<char>)
    ensures
        entries_map(s).contains_key(k) <==> has_key(s, k),
    decreases s.len(),
{
    if s.len() > 0 {
        lemma_entries_map_contains(s.drop_last(), k);
        if s.last().key@ == k {
            assert(s[s.len() - 1].key@ == k);
        } else if entries_map(s).contains_key(k) {
            let i = choose|i: int| 0 <= i < s.drop_last().len() && s.drop_last()[i].key@ == k;
            assert(s[i].key@ == k);
        } else if has_key(s, k) {
            let i = choose|i: int| 0 <= i < s.len() && s[i].key@ == k;
            assert(s.drop_last()[i].key@ == k);
        }
    }
}

proof fn lemma_entries_map_finite(s: Seq<RegistryEntry>)
    ensures
        entries_map(s).dom().finite(),
    decreases s.len(),
{
    if s.len() > 0 {
        lemma_entries_map_finite(s.drop_last());
    }
}

/// The keys of `s` are pairwise distinct.
spec fn distinct_keys(s: Seq<RegistryEntry>) -> bool {
    forall|i: int, j: int| 0 <= i < j < s.len() ==> s[i].key@ != s[j].key@
}

proof fn lemma_entries_map_len(s: Seq<RegistryEntry>)
    requires
        distinct_keys(s),
    ensures
        entries_map(s).dom().finite(),
        entries_map(s).dom().len() == s.len(),
    decreases s.len(),
{
    lemma_entries_map_finite(s);
    if s.len() > 0 {
        assert(distinct_keys(s.drop_last()));
        lemma_entries_map_len(s.drop_last());
        lemma_entries_map_contains(s.drop_last(), s.last().key@);
        assert(!has_key(s.drop_last(), s.last().key@)) by {
            if has_key(s.drop_last(), s.last().key@) {
                let i = choose|i: int|
                    0 <= i < s.drop_last().len() && s.drop_last()[i].key@ == s.last().key@;
                assert(s[i].key@ == s[s.len() - 1].key@);
            }
        }
        assert(entries_map(s).dom() =~= entries_map(s.drop_last()).dom().insert(s.last().key@));
    }
}

proof fn lemma_entries_map_value(s: Seq<RegistryEntry>, i: int)
    requires
        distinct_keys(s),
        0 <= i < s.len(),
    ensures
        entries_map(s).contains_key(s[i].key@),
        entries_map(s)[s[i].key@] == s[i].handle,
    decreases s.len(),
{
    if i == s.len() - 1 {
        assert(s[i] == s.last());
    } else {
        assert(distinct_keys(s.drop_last()));
        assert(s.drop_last()[i] == s[i]);
        lemma_entries_map_value(s.drop_last(), i);
        assert(s[i].key@ != s[s.len() - 1].key@);
    }
}

proof fn lemma_entries_map_update(s: Seq<RegistryEntry>, i: int, e: RegistryEntry)
    requires
        distinct_keys(s),
        0 <= i < s.len(),
        s[i].key@ == e.key@,
    ensures
        entries_map(s.update(i, e)) == entries_map(s).insert(e.key@, e.handle),
    decreases s.len(),
{
    let t = s.update(i, e);
    if i == s.len() - 1 {
        assert(t.drop_last() =~= s.drop_last());
        assert(t.last() == e);
        assert(entries_map(t) =~= entries_map(s).insert(e.key@, e.handle));
    } else {
        assert(distinct_keys(s.drop_last()));
        assert(s.drop_last()[i] == s[i]);
        lemma_entries_map_update(s.drop_last(), i, e);
        assert(t.drop_last() =~= s.drop_last().update(i, e));
        assert(t.last() == s.last());
        assert(s[i].key@ != s[s.len() - 1].key@);
        assert(entries_map(t) =~= entries_map(s).insert(e.key@, e.handle));
    }
}

impl CallbackRegistry {
    /// Well-formedness: no identifier occurs twice.
    pub closed spec fn wf(&self) -> bool {
        distinct_keys(self.entries@)
    }

    /// An empty registry.
    pub fn new() -> (r: Self)
        ensures
            r.wf(),
            r@ == Map::<Seq<char>, u64>::empty(),
    {
        CallbackRegistry { entries: Vec::new() }
    }

    /// Bind `key` to `handle`, overwriting any earlier binding for `key`.
    pub fn insert(&mut self, key: String, handle: u64)
        requires
            old(self).wf(),
        ensures
            final(self).wf(),
            final(self)@ == old(self)@.insert(key@, handle),
    {
        let ghost s = old(self).entries@;
        let n = self.entries.len();
        let mut i: usize = 0;
        while i < n
            invariant
                n == self.entries@.len(),
                i <= n,
                self.entries@ == s,
                s == old(self).entries@,
                distinct_keys(s),
                forall|j: int| 0 <= j < i ==> s[j].key@ != key@,
            decreases n - i,
        {
            if self.entries[i].key == key {
                let e = RegistryEntry { key, handle };
                proof {
                    lemma_entries_map_update(s, i as int, e);
                }
                self.entries[i] = e;
                assert(distinct_keys(self.entries@)) by {
                    assert(forall|a: int|
                        0 <= a < s.len() ==> #[trigger] s.update(i as int, e)[a].key@
                            == s[a].key@);
                }
                return ;
            }
            i += 1;
        }
        let e = RegistryEntry { key, handle };
        self.entries.push(e);
        proof {
            assert(self.entries@.drop_last() =~= s);
            assert(self.entries@.last() == e);
            assert(distinct_keys(self.entries@)) by {
                assert(forall|a: int, b: int|
                    0 <= a < b < s.len() ==> self.entries@[a].key@ != self.entries@[b].key@);
                assert(forall|a: int|
                    0 <= a < s.len() ==> self.entries@[a].key@ != e.key@);
            }
        }
    }

    /// Look a key up; `None` exactly when no binding for it exists.
    pub fn get(&self, key: &String) -> (r: Option<u64>)
        requires
            self.wf(),
        ensures
            match r {
                Some(h) => self@.contains_key(key@) && self@[key@] == h,
                None => !self@.contains_key(key@),
            },
    {
        let n = self.entries.len();
        let mut i: usize = 0;
        while i < n
            invariant
                n == self.entries@.len(),
                i <= n,
                self.wf(),
                forall|j: int| 0 <= j < i ==> self.entries@[j].key@ != key@,
            decreases n - i,
        {
            if self.entries[i].key == *key {
                proof {
                    lemma_entries_map_value(self.entries@, i as int);
                }
                return Some(self.entries[i].handle);
            }
            i += 1;
        }
        proof {
            lemma_entries_map_contains(self.entries@, key@);
        }
        None
    }

    /// The number of bindings held.
    pub fn len(&self) -> (n: usize)
        requires
            self.wf(),
        ensures
            n == self@.dom().len(),
    {
        proof {
            lemma_entries_map_len(self.entries@);
        }
        self.entries.len()
    }

    /// An independent copy with the same bindings.
    pub fn snapshot(&self) -> (r: Self)
        requires
            self.wf(),
        ensures
            r.wf(),
            r@ == self@,
    {
        let n = self.entries.len();
        let mut entries: Vec<RegistryEntry> = Vec::new();
        let mut i: usize = 0;
        while i < n
            invariant
                n == self.entries@.len(),
                i <= n,
                entries@ =~= self.entries@.subrange(0, i as int),
            decreases n - i,
        {
            entries.push(
                RegistryEntry { key: self.entries[i].key.clone(), handle: self.entries[i].handle },
            );
            proof {
                assert(entries@ =~= self.entries@.subrange(0, i + 1));
            }
            i += 1;
        }
        proof {
            assert(entries@ =~= self.entries@);
        }
        CallbackRegistry { entries }
    }
}

} // verus!
