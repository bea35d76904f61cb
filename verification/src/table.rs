//! Tables: what is known under each of a few keys.

use vstd::prelude::*;

use crate::bytes::same_octets;
use crate::linux::model::Bssid;
use crate::text::same_text;

verus! {

/// A key of a table.
pub trait Key: Sized {
    /// What tells a key from others.
    type Id;

    /// What tells this key from others.
    spec fn id(&self) -> Self::Id;

    /// Whether two keys are the same.
    fn same(&self, other: &Self) -> (r: bool)
        ensures
            r == (self.id() == other.id()),
    ;

    /// Another key that is the same.
    fn copy(&self) -> (r: Self)
        ensures
            r.id() == self.id(),
    ;
}

impl Key for i32 {
    type Id = i32;

    open spec fn id(&self) -> i32 {
        *self
    }

    fn same(&self, other: &Self) -> (r: bool) {
        *self == *other
    }

    fn copy(&self) -> (r: Self) {
        *self
    }
}

impl Key for u64 {
    type Id = u64;

    open spec fn id(&self) -> u64 {
        *self
    }

    fn same(&self, other: &Self) -> (r: bool) {
        *self == *other
    }

    fn copy(&self) -> (r: Self) {
        *self
    }
}

impl Key for Bssid {
    type Id = Seq<u8>;

    open spec fn id(&self) -> Seq<u8> {
        self.0@
    }

    fn same(&self, other: &Self) -> (r: bool) {
        same_octets(self.0.as_slice(), other.0.as_slice())
    }

    fn copy(&self) -> (r: Self) {
        *self
    }
}

impl Key for String {
    type Id = Seq<char>;

    open spec fn id(&self) -> Seq<char> {
        self@
    }

    fn same(&self, other: &Self) -> (r: bool) {
        same_text(self.as_str(), other.as_str())
    }

    fn copy(&self) -> (r: Self) {
        self.clone()
    }
}

/// The position of a key among entries, or how many there are.
pub open spec fn position<K: Key, V>(entries: Seq<(K, V)>, id: K::Id) -> int
    decreases entries.len(),
{
    if entries.len() == 0 || entries[0].0.id() == id {
        0
    } else {
        1 + position(entries.skip(1), id)
    }
}

proof fn lemma_position<K: Key, V>(entries: Seq<(K, V)>, id: K::Id)
    ensures
        0 <= position(entries, id) <= entries.len(),
        forall|i: int| 0 <= i < position(entries, id) ==> (#[trigger] entries[i]).0.id() != id,
        position(entries, id) < entries.len() ==> entries[position(entries, id)].0.id() == id,
    decreases entries.len(),
{
    if entries.len() > 0 && entries[0].0.id() != id {
        let rest = entries.skip(1);
        lemma_position(rest, id);
        assert forall|i: int| 0 <= i < position(entries, id) implies (
        #[trigger] entries[i]).0.id() != id by {
            if i > 0 {
                assert(rest[i - 1] == entries[i]);
            }
        }
    }
}

proof fn lemma_position_is<K: Key, V>(entries: Seq<(K, V)>, id: K::Id, k: int)
    requires
        0 <= k <= entries.len(),
        forall|i: int| 0 <= i < k ==> (#[trigger] entries[i]).0.id() != id,
        k < entries.len() ==> entries[k].0.id() == id,
    ensures
        position(entries, id) == k,
{
    lemma_position(entries, id);
    let p = position(entries, id);
    if p < k {
        assert(entries[p].0.id() != id);
    } else if k < p {
        assert(entries[k].0.id() != id);
    }
}

/// Whether no key occurs twice.
pub open spec fn distinct<K: Key, V>(entries: Seq<(K, V)>) -> bool {
    forall|i: int, j: int|
        0 <= i < j < entries.len() ==> (#[trigger] entries[i]).0.id() != (
        #[trigger] entries[j]).0.id()
}

/// What entries hold under each key.
pub open spec fn contents<K: Key, V>(entries: Seq<(K, V)>) -> Map<K::Id, V> {
    Map::new(
        |id: K::Id| position(entries, id) < entries.len(),
        |id: K::Id| entries[position(entries, id)].1,
    )
}

/// A table: what is known under each of a few keys.
#[derive(Debug)]
pub struct Table<K: Key, V> {
    entries: Vec<(K, V)>,
}

impl<K: Key, V> Table<K, V> {
    #[verifier::type_invariant]
    closed spec fn inv(self) -> bool {
        distinct(self.entries@)
    }

    /// What is known under each key.
    pub closed spec fn view(&self) -> Map<K::Id, V> {
        contents(self.entries@)
    }

    /// An empty table.
    pub fn new() -> (r: Self)
        ensures
            r@ == Map::<K::Id, V>::empty(),
    {
        let r = Table { entries: Vec::new() };
        assert(r@ =~= Map::<K::Id, V>::empty());
        r
    }

    fn find(&self, key: &K) -> (r: usize)
        ensures
            r == position(self.entries@, key.id()),
            r <= self.entries@.len(),
    {
        let mut i: usize = 0;
        while i < self.entries.len()
            invariant
                i <= self.entries@.len(),
                forall|j: int| 0 <= j < i ==> (#[trigger] self.entries@[j]).0.id() != key.id(),
            decreases self.entries@.len() - i,
        {
            if self.entries[i].0.same(key) {
                proof {
                    lemma_position_is(self.entries@, key.id(), i as int);
                }
                return i;
            }
            i = i + 1;
        }
        proof {
            lemma_position_is(self.entries@, key.id(), i as int);
        }
        i
    }

    /// What is known under a key.
    pub fn get(&self, key: &K) -> (r: Option<&V>)
        ensures
            match r {
                Some(value) => self@.contains_key(key.id()) && self@[key.id()] == *value,
                None => !self@.contains_key(key.id()),
            },
    {
        let k: usize = self.find(key);
        if k < self.entries.len() {
            Some(&self.entries[k].1)
        } else {
            None
        }
    }

    /// Whether anything is known under a key.
    pub fn contains_key(&self, key: &K) -> (r: bool)
        ensures
            r == self@.contains_key(key.id()),
    {
        self.find(key) < self.entries.len()
    }

    /// Makes a value known under a key, in place of what was.
    pub fn insert(&mut self, key: K, value: V)
        ensures
            final(self)@ == old(self)@.insert(key.id(), value),
    {
        proof {
            use_type_invariant(&*self);
        }
        let ghost before = self.entries@;
        let k: usize = self.find(&key);
        let mut entries: Vec<(K, V)> = Vec::new();
        std::mem::swap(&mut entries, &mut self.entries);
        let ghost id = key.id();
        proof {
            lemma_position(before, id);
        }
        if k < entries.len() {
            entries.set(k, (key, value));
        } else {
            entries.push((key, value));
        }
        proof {
            let after = entries@;
            assert forall|other: K::Id| #[trigger] position(after, other) == if other == id {
                k as int
            } else if position(before, other) < before.len() {
                position(before, other)
            } else {
                after.len() as int
            } by {
                lemma_position(before, other);
                let p = position(before, other);
                if other == id {
                    lemma_position_is(after, other, k as int);
                } else if p < before.len() {
                    lemma_position_is(after, other, p);
                } else {
                    lemma_position_is(after, other, after.len() as int);
                }
            }
            assert forall|other: K::Id| #[trigger] contents(before).insert(id, value).contains_key(
                other,
            ) == contents(after).contains_key(other) by {
                lemma_position(before, other);
                lemma_position(after, other);
            }
            assert forall|other: K::Id| #[trigger] contents(after).contains_key(
                other,
            ) implies contents(before).insert(id, value)[other] == contents(after)[other] by {
                lemma_position(before, other);
                lemma_position(after, other);
            }
            assert(contents(after) =~= contents(before).insert(id, value));
            assert(distinct(after));
        }
        self.entries = entries;
    }

    /// Forgets what is known under a key, and hands it out.
    pub fn remove(&mut self, key: &K) -> (r: Option<V>)
        ensures
            final(self)@ == old(self)@.remove(key.id()),
            match r {
                Some(value) => old(self)@.contains_key(key.id()) && old(self)@[key.id()] == value,
                None => !old(self)@.contains_key(key.id()),
            },
    {
        proof {
            use_type_invariant(&*self);
        }
        let ghost before = self.entries@;
        let k: usize = self.find(key);
        let ghost id = key.id();
        proof {
            lemma_position(before, id);
        }
        if k >= self.entries.len() {
            assert(self@ =~= old(self)@.remove(id));
            return None;
        }
        let mut entries: Vec<(K, V)> = Vec::new();
        std::mem::swap(&mut entries, &mut self.entries);
        let (_, value) = entries.remove(k);
        proof {
            let after = entries@;
            assert(after =~= before.remove(k as int));
            assert forall|other: K::Id| #[trigger] position(after, other) == if other == id {
                after.len() as int
            } else if position(before, other) < k {
                position(before, other)
            } else {
                position(before, other) - 1
            } by {
                lemma_position(before, other);
                let p = position(before, other);
                if other == id {
                    assert forall|i: int| 0 <= i < after.len() implies (
                    #[trigger] after[i]).0.id() != id by {
                        if i < k {
                            assert(after[i] == before[i]);
                        } else {
                            assert(after[i] == before[i + 1]);
                            assert(before[k as int].0.id() != before[i + 1].0.id());
                        }
                    }
                    lemma_position_is(after, other, after.len() as int);
                } else if p < k {
                    lemma_position_is(after, other, p);
                } else {
                    assert(p != k);
                    assert forall|i: int| 0 <= i < p - 1 implies (#[trigger] after[i]).0.id()
                        != other by {
                        if i < k {
                            assert(after[i] == before[i]);
                        } else {
                            assert(after[i] == before[i + 1]);
                        }
                    }
                    lemma_position_is(after, other, p - 1);
                }
            }
            assert forall|other: K::Id| #[trigger] contents(before).remove(id).contains_key(
                other,
            ) == contents(after).contains_key(other) by {
                lemma_position(before, other);
                lemma_position(after, other);
            }
            assert forall|other: K::Id| #[trigger] contents(after).contains_key(
                other,
            ) implies contents(before).remove(id)[other] == contents(after)[other] by {
                lemma_position(before, other);
                lemma_position(after, other);
            }
            assert(contents(after) =~= contents(before).remove(id));
            assert(distinct(after)) by {
                assert forall|i: int, j: int| 0 <= i < j < after.len() implies (
                #[trigger] after[i]).0.id() != (#[trigger] after[j]).0.id() by {
                    let a = if i < k {
                        i
                    } else {
                        i + 1
                    };
                    let b = if j < k {
                        j
                    } else {
                        j + 1
                    };
                    assert(after[i] == before[a] && after[j] == before[b]);
                }
            }
        }
        self.entries = entries;
        Some(value)
    }

    /// The keys under which something is known, each once.
    pub fn keys(&self) -> (r: Vec<K>)
        ensures
            forall|i: int|
                0 <= i < r@.len() ==> self@.contains_key((#[trigger] r@[i]).id()),
            forall|id: K::Id| #[trigger]
                self@.contains_key(id) ==> exists|i: int|
                    0 <= i < r@.len() && (#[trigger] r@[i]).id() == id,
            forall|i: int, j: int|
                0 <= i < j < r@.len() ==> (#[trigger] r@[i]).id() != (#[trigger] r@[j]).id(),
    {
        proof {
            use_type_invariant(self);
        }
        let mut r: Vec<K> = Vec::new();
        let mut i: usize = 0;
        while i < self.entries.len()
            invariant
                i <= self.entries@.len(),
                r@.len() == i,
                forall|j: int| 0 <= j < i ==> (#[trigger] r@[j]).id() == self.entries@[j].0.id(),
            decreases self.entries@.len() - i,
        {
            r.push(self.entries[i].0.copy());
            i = i + 1;
        }
        proof {
            let entries = self.entries@;
            assert forall|j: int| 0 <= j < r@.len() implies self@.contains_key(
                (#[trigger] r@[j]).id(),
            ) by {
                lemma_position(entries, r@[j].id());
                if position(entries, r@[j].id()) >= entries.len() {
                    assert(entries[j].0.id() != r@[j].id());
                }
            }
            assert forall|id: K::Id| #[trigger] self@.contains_key(id) implies exists|j: int|
                0 <= j < r@.len() && (#[trigger] r@[j]).id() == id by {
                lemma_position(entries, id);
                assert(r@[position(entries, id)].id() == id);
            }
            assert forall|a: int, b: int| 0 <= a < b < r@.len() implies (
            #[trigger] r@[a]).id() != (#[trigger] r@[b]).id() by {
                assert(entries[a].0.id() != entries[b].0.id());
            }
        }
        r
    }
}

} // verus!
