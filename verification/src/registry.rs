//! Registries of live resources keyed by string identifiers.
//!
//! A [`Registry`] is the building block of the bridge layer: circuits, plain
//! byte streams and secure streams each live in one. Its contents are modelled
//! as a [`Map`] from the identifier's characters to the stored resource;
//! inserting an identifier that is already present silently overwrites the
//! previous entry, exactly as the bridge's callers expect.

use vstd::prelude::*;
use vstd::string::StringExecFns;

verus! {

/// The map described by an association list, later entries shadowing earlier
/// ones with the same key.
pub open spec fn assoc_map<T>(entries: Seq<(String, T)>) -> Map<Seq<char>, T>
    decreases entries.len(),
{
    if entries.len() == 0 {
        Map::empty()
    } else {
        assoc_map(entries.drop_last()).insert(entries.last().0@, entries.last().1)
    }
}

/// No two entries carry the same identifier.
pub open spec fn unique_keys<T>(entries: Seq<(String, T)>) -> bool {
    forall|i: int, j: int|
        0 <= i < j < entries.len() ==> #[trigger] entries[i].0@ != #[trigger] entries[j].0@
}

/// An identifier occurs in the map exactly when some entry carries it.
proof fn lemma_assoc_membership<T>(entries: Seq<(String, T)>, k: Seq<char>)
    ensures
        assoc_map(entries).contains_key(k) <==> exists|i: int|
            0 <= i < entries.len() && #[trigger] entries[i].0@ == k,
    decreases entries.len(),
{
    if entries.len() > 0 {
        lemma_assoc_membership(entries.drop_last(), k);
        if assoc_map(entries).contains_key(k) {
            if entries.last().0@ != k {
                let i = choose|i: int|
                    0 <= i < entries.drop_last().len() && #[trigger] entries.drop_last()[i].0@
                        == k;
                assert(entries[i].0@ == k);
            } else {
                assert(entries[entries.len() - 1].0@ == k);
            }
        }
        if exists|i: int| 0 <= i < entries.len() && #[trigger] entries[i].0@ == k {
            let i = choose|i: int| 0 <= i < entries.len() && #[trigger] entries[i].0@ == k;
            if i < entries.len() - 1 {
                assert(entries.drop_last()[i].0@ == k);
            }
        }
    }
}

/// With unique identifiers, the entry at any index is what the map stores
/// under its identifier.
proof fn lemma_assoc_index<T>(entries: Seq<(String, T)>, i: int)
    requires
        unique_keys(entries),
        0 <= i < entries.len(),
    ensures
        assoc_map(entries).contains_key(entries[i].0@),
        assoc_map(entries)[entries[i].0@] == entries[i].1,
    decreases entries.len(),
{
    if i < entries.len() - 1 {
        assert(unique_keys(entries.drop_last()));
        lemma_assoc_index(entries.drop_last(), i);
        assert(entries[i].0@ != entries.last().0@);
    }
}

/// With unique identifiers, removing the entry at an index removes exactly
/// its identifier from the map.
proof fn lemma_assoc_remove<T>(entries: Seq<(String, T)>, i: int)
    requires
        unique_keys(entries),
        0 <= i < entries.len(),
    ensures
        assoc_map(entries.remove(i)) =~= assoc_map(entries).remove(entries[i].0@),
    decreases entries.len(),
{
    let k = entries[i].0@;
    if i == entries.len() - 1 {
        assert(entries.remove(i) =~= entries.drop_last());
        lemma_assoc_membership(entries.drop_last(), k);
        assert(!assoc_map(entries.drop_last()).contains_key(k));
        assert(assoc_map(entries).remove(k) =~= assoc_map(entries.drop_last()));
    } else {
        let shorter = entries.drop_last();
        assert(unique_keys(shorter));
        lemma_assoc_remove(shorter, i);
        assert(entries.remove(i).drop_last() =~= shorter.remove(i));
        assert(entries.remove(i).last() == entries.last());
        assert(entries.remove(i).len() > 0);
        assert(assoc_map(entries.remove(i)) == assoc_map(shorter.remove(i)).insert(
            entries.last().0@,
            entries.last().1,
        ));
        assert(k != entries.last().0@);
    }
}

/// Appending a fresh entry inserts exactly its identifier.
proof fn lemma_assoc_push<T>(entries: Seq<(String, T)>, key: String, value: T)
    ensures
        assoc_map(entries.push((key, value))) == assoc_map(entries).insert(key@, value),
{
    let pushed = entries.push((key, value));
    assert(pushed.drop_last() =~= entries);
    assert(pushed.last() == (key, value));
}

/// A registry: string identifiers mapped to live resources. Lookups compare
/// whole identifiers; an insertion under a held identifier replaces the held
/// resource.
pub struct Registry<T> {
    entries: Vec<(String, T)>,
}

impl<T> View for Registry<T> {
    type V = Map<Seq<char>, T>;

    closed spec fn view(&self) -> Map<Seq<char>, T> {
        assoc_map(self.entries@)
    }
}

impl<T> Registry<T> {
    /// The registry's identifiers are unique; every operation preserves this.
    pub closed spec fn wf(&self) -> bool {
        unique_keys(self.entries@)
    }

    /// An empty registry.
    pub fn new() -> (r: Registry<T>)
        ensures
            r.wf(),
            r@ == Map::<Seq<char>, T>::empty(),
    {
        Registry { entries: Vec::new() }
    }

    /// Index of the entry carrying `key`, if one is held.
    fn find_index(&self, key: &String) -> (r: Option<usize>)
        requires
            self.wf(),
        ensures
            match r {
                Some(i) => i < self.entries@.len() && self.entries@[i as int].0@ == key@,
                None => forall|i: int|
                    0 <= i < self.entries@.len() ==> #[trigger] self.entries@[i].0@ != key@,
            },
    {
        let n = self.entries.len();
        let mut i: usize = 0;
        while i < n
            invariant
                n == self.entries@.len(),
                i <= n,
                forall|j: int| 0 <= j < i ==> #[trigger] self.entries@[j].0@ != key@,
            decreases n - i,
        {
            if self.entries[i].0 == *key {
                return Some(i);
            }
            i = i + 1;
        }
        None
    }

    /// Whether a resource is held under `key`.
    pub fn contains(&self, key: &String) -> (r: bool)
        requires
            self.wf(),
        ensures
            r == self@.contains_key(key@),
    {
        proof {
            lemma_assoc_membership(self.entries@, key@);
        }
        self.find_index(key).is_some()
    }

    /// The resource held under `key`, if any.
    pub fn get(&self, key: &String) -> (r: Option<&T>)
        requires
            self.wf(),
        ensures
            match r {
                Some(v) => self@.contains_key(key@) && *v == self@[key@],
                None => !self@.contains_key(key@),
            },
    {
        proof {
            lemma_assoc_membership(self.entries@, key@);
        }
        match self.find_index(key) {
            Some(i) => {
                proof {
                    lemma_assoc_index(self.entries@, i as int);
                }
                Some(&self.entries[i].1)
            },
            None => None,
        }
    }

    /// Store `value` under `key`, replacing whatever the registry held there.
    pub fn insert(&mut self, key: String, value: T)
        requires
            old(self).wf(),
        ensures
            final(self).wf(),
            final(self)@ == old(self)@.insert(key@, value),
    {
        let ghost pre = self.entries@;
        match self.find_index(&key) {
            Some(i) => {
                proof {
                    lemma_assoc_remove(pre, i as int);
                    pre.remove_ensures(i as int);
                }
                let _ = self.entries.remove(i);
                proof {
                    assert(unique_keys(self.entries@));
                    assert forall|j: int|
                        0 <= j < self.entries@.len() implies #[trigger] self.entries@[j].0@
                        != key@ by {
                        if j < i {
                            assert(self.entries@[j] == pre[j]);
                        } else {
                            assert(self.entries@[j] == pre[j + 1]);
                        }
                    }
                }
            },
            None => {},
        }
        let ghost mid = self.entries@;
        proof {
            lemma_assoc_push(mid, key, value);
        }
        self.entries.push((key, value));
        proof {
            assert forall|i: int, j: int|
                0 <= i < j < self.entries@.len() implies #[trigger] self.entries@[i].0@
                != #[trigger] self.entries@[j].0@ by {
                if j < self.entries@.len() - 1 {
                    assert(self.entries@[i] == mid[i] && self.entries@[j] == mid[j]);
                } else {
                    assert(self.entries@[i] == mid[i]);
                }
            }
            assert(old(self)@.remove(key@).insert(key@, value) =~= old(self)@.insert(key@, value));
        }
    }

    /// Withdraw the resource held under `key`. The identifier is free again
    /// afterwards; the registry is untouched when `key` is unknown.
    pub fn remove(&mut self, key: &String) -> (r: Option<T>)
        requires
            old(self).wf(),
        ensures
            final(self).wf(),
            match r {
                Some(v) => old(self)@.contains_key(key@) && v == old(self)@[key@] && final(self)@
                    == old(self)@.remove(key@),
                None => !old(self)@.contains_key(key@) && final(self)@ == old(self)@ && *final(self)
                    == *old(self),
            },
    {
        let ghost pre = self.entries@;
        proof {
            lemma_assoc_membership(pre, key@);
        }
        match self.find_index(key) {
            Some(i) => {
                proof {
                    lemma_assoc_index(pre, i as int);
                    lemma_assoc_remove(pre, i as int);
                    pre.remove_ensures(i as int);
                }
                let entry = self.entries.remove(i);
                proof {
                    assert forall|a: int, b: int|
                        0 <= a < b < self.entries@.len() implies #[trigger] self.entries@[a].0@
                        != #[trigger] self.entries@[b].0@ by {
                        let a0: int = if a < i { a } else { a + 1 };
                        let b0: int = if b < i { b } else { b + 1 };
                        assert(self.entries@[a] == pre[a0] && self.entries@[b] == pre[b0]);
                    }
                }
                Some(entry.1)
            },
            None => None,
        }
    }

    /// Drop every held resource at once.
    pub fn clear(&mut self)
        ensures
            final(self).wf(),
            final(self)@ == Map::<Seq<char>, T>::empty(),
    {
        self.entries.clear();
    }
}

} // verus!
