//! A small association table and a set of keys, kept as vectors of distinct keys.

use vstd::prelude::*;

use crate::text::str_eq;

verus! {

/// Keys that can be told apart by what they hold.
pub trait Same: View + Sized {
    /// Whether two keys hold the same value.
    fn same(&self, other: &Self) -> (r: bool)
        ensures
            r == (self@ == other@),
    ;
}

impl Same for String {
    fn same(&self, other: &Self) -> (r: bool) {
        str_eq(self.as_str(), other.as_str())
    }
}

impl Same for u16 {
    fn same(&self, other: &Self) -> (r: bool) {
        *self == *other
    }
}

/// A map from keys to values, each key held once.
pub struct Table<K: Same, T> {
    entries: Vec<(K, T)>,
}

/// No key occurs twice.
pub open spec fn distinct<K: Same, T>(e: Seq<(K, T)>) -> bool {
    forall|i: int, j: int|
        0 <= i < j < e.len() ==> (#[trigger] e[i]).0@ != (#[trigger] e[j]).0@
}

/// The map that a list of entries stands for.
pub open spec fn map_of<K: Same, T>(e: Seq<(K, T)>) -> Map<K::V, T> {
    Map::new(|k: K::V| holds(e, k), |k: K::V| e[place(e, k)].1)
}

/// Some entry has the key `k`.
pub open spec fn holds<K: Same, T>(e: Seq<(K, T)>, k: K::V) -> bool {
    exists|i: int| 0 <= i < e.len() && (#[trigger] e[i]).0@ == k
}

/// Where the key `k` is held.
pub open spec fn place<K: Same, T>(e: Seq<(K, T)>, k: K::V) -> int {
    choose|i: int| 0 <= i < e.len() && (#[trigger] e[i]).0@ == k
}

/// What the keys of a list of entries hold.
pub open spec fn keys_of<K: Same, T>(e: Seq<(K, T)>) -> Seq<K::V> {
    Seq::new(e.len(), |i: int| e[i].0@)
}

/// The list names each element of the set once, and nothing else.
pub open spec fn enumerates<A>(e: Seq<A>, s: Set<A>) -> bool {
    e.no_duplicates() && forall|x: A| #[trigger] e.contains(x) <==> s.contains(x)
}

impl<K: Same, T> View for Table<K, T> {
    type V = Map<K::V, T>;

    closed spec fn view(&self) -> Map<K::V, T> {
        map_of(self.entries@)
    }
}

proof fn lemma_place<K: Same, T>(e: Seq<(K, T)>, i: int)
    requires
        distinct(e),
        0 <= i < e.len(),
    ensures
        holds(e, e[i].0@),
        place(e, e[i].0@) == i,
        map_of(e).contains_key(e[i].0@),
        map_of(e)[e[i].0@] == e[i].1,
{
    let k = e[i].0@;
    let p = place(e, k);
    assert(0 <= p < e.len() && e[p].0@ == k);
}

impl<K: Same, T> Table<K, T> {
    #[verifier::type_invariant]
    spec fn wf(self) -> bool {
        distinct(self.entries@)
    }

    /// An empty table.
    pub fn new() -> (r: Self)
        ensures
            r@ == Map::<K::V, T>::empty(),
    {
        let r = Table { entries: Vec::new() };
        assert(r@ =~= Map::<K::V, T>::empty());
        r
    }

    fn find(&self, key: &K) -> (r: Option<usize>)
        ensures
            match r {
                Some(i) => i < self.entries.len() && self.entries@[i as int].0@ == key@,
                None => !holds(self.entries@, key@),
            },
    {
        let mut i: usize = 0;
        while i < self.entries.len()
            invariant
                i <= self.entries.len(),
                forall|j: int| 0 <= j < i ==> (#[trigger] self.entries@[j]).0@ != key@,
            decreases self.entries.len() - i,
        {
            if self.entries[i].0.same(key) {
                return Some(i);
            }
            i = i + 1;
        }
        None
    }

    /// The value of `key`, if it is held.
    pub fn get(&self, key: &K) -> (r: Option<&T>)
        ensures
            match r {
                Some(v) => self@.contains_key(key@) && *v == self@[key@],
                None => !self@.contains_key(key@),
            },
    {
        proof {
            use_type_invariant(self);
        }
        match self.find(key) {
            Some(i) => {
                proof {
                    lemma_place(self.entries@, i as int);
                }
                Some(&self.entries[i].1)
            },
            None => None,
        }
    }

    /// Whether `key` is held.
    pub fn contains(&self, key: &K) -> (r: bool)
        ensures
            r == self@.contains_key(key@),
    {
        self.get(key).is_some()
    }

    /// How many keys are held.
    pub fn len(&self) -> (r: usize)
        ensures
            r == self@.dom().len(),
            self@.dom().finite(),
    {
        proof {
            use_type_invariant(self);
            lemma_count(self.entries@);
        }
        self.entries.len()
    }

    /// The entries, in the order in which they are held.
    pub closed spec fn listing(&self) -> Seq<(K, T)> {
        self.entries@
    }

    /// How many entries there are to go through.
    pub fn count(&self) -> (r: usize)
        ensures
            r == self.listing().len(),
            enumerates(keys_of(self.listing()), self@.dom()),
            forall|i: int|
                0 <= i < r ==> self@[(#[trigger] self.listing()[i]).0@] == self.listing()[i].1,
    {
        proof {
            use_type_invariant(self);
            let e = self.entries@;
            let k = keys_of(e);
            assert(k.no_duplicates());
            assert forall|x: K::V| k.contains(x) <==> self@.dom().contains(x) by {
                if k.contains(x) {
                    let i = choose|i: int| 0 <= i < k.len() && k[i] == x;
                    assert(e[i].0@ == x);
                }
                if holds(e, x) {
                    let i = place(e, x);
                    assert(k[i] == x);
                }
            }
            assert forall|i: int| 0 <= i < e.len() implies map_of(e)[(#[trigger] e[i]).0@]
                == e[i].1 by {
                lemma_place(e, i);
            }
        }
        self.entries.len()
    }

    /// One entry.
    pub fn entry(&self, i: usize) -> (r: (&K, &T))
        requires
            i < self.listing().len(),
        ensures
            *r.0 == self.listing()[i as int].0,
            *r.1 == self.listing()[i as int].1,
    {
        (&self.entries[i].0, &self.entries[i].1)
    }

    /// Hold `value` under `key`, in place of whatever `key` held before.
    pub fn insert(&mut self, key: K, value: T)
        ensures
            final(self)@ == old(self)@.insert(key@, value),
    {
        proof {
            use_type_invariant(&*self);
        }
        let ghost before = self.entries@;
        let found = self.find(&key);
        let mut e: Vec<(K, T)> = Vec::new();
        std::mem::swap(&mut e, &mut self.entries);
        let ghost k = key@;
        match found {
            Some(i) => {
                e.set(i, (key, value));
                assert(e@ =~= before.update(i as int, (key, value)));
                proof {
                    lemma_update(before, i as int, (key, value));
                }
            },
            None => {
                e.push((key, value));
                proof {
                    lemma_push(before, (key, value));
                }
            },
        }
        self.entries = e;
    }

    /// Drop `key` and its value, if it is held.
    pub fn remove(&mut self, key: &K)
        ensures
            final(self)@ == old(self)@.remove(key@),
    {
        proof {
            use_type_invariant(&*self);
        }
        let ghost before = self.entries@;
        let found = self.find(key);
        let mut e: Vec<(K, T)> = Vec::new();
        std::mem::swap(&mut e, &mut self.entries);
        match found {
            Some(i) => {
                let gone = e.remove(i);
                proof {
                    lemma_remove(before, i as int);
                }
            },
            None => {
                assert(map_of(before) =~= map_of(before).remove(key@));
            },
        }
        self.entries = e;
    }
}

proof fn lemma_update<K: Same, T>(e: Seq<(K, T)>, i: int, x: (K, T))
    requires
        distinct(e),
        0 <= i < e.len(),
        e[i].0@ == x.0@,
    ensures
        distinct(e.update(i, x)),
        map_of(e.update(i, x)) == map_of(e).insert(x.0@, x.1),
{
    let f = e.update(i, x);
    assert(forall|j: int| 0 <= j < e.len() ==> (#[trigger] f[j]).0@ == e[j].0@);
    let a = map_of(f);
    let b = map_of(e).insert(x.0@, x.1);
    assert forall|k: K::V| a.contains_key(k) == b.contains_key(k) by {
        if holds(f, k) {
            let p = place(f, k);
            assert(e[p].0@ == k);
        }
        if holds(e, k) {
            let p = place(e, k);
            assert(f[p].0@ == k);
        }
        if k == x.0@ {
            assert(f[i].0@ == k);
        }
    }
    assert forall|k: K::V| a.contains_key(k) implies a[k] == b[k] by {
        let p = place(f, k);
        assert(f[p].0@ == k);
        lemma_place(f, p);
        lemma_place(e, p);
        lemma_place(f, i);
    }
    assert(a =~= b);
}

proof fn lemma_push<K: Same, T>(e: Seq<(K, T)>, x: (K, T))
    requires
        distinct(e),
        !holds(e, x.0@),
    ensures
        distinct(e.push(x)),
        map_of(e.push(x)) == map_of(e).insert(x.0@, x.1),
{
    let f = e.push(x);
    assert(forall|j: int| 0 <= j < e.len() ==> (#[trigger] f[j]) == e[j]);
    assert(distinct(f)) by {
        assert forall|i: int, j: int| 0 <= i < j < f.len() implies (#[trigger] f[i]).0@ != (
        #[trigger] f[j]).0@ by {
            assert(f[i] == e[i]);
        }
    }
    let a = map_of(f);
    let b = map_of(e).insert(x.0@, x.1);
    assert forall|k: K::V| a.contains_key(k) == b.contains_key(k) by {
        if holds(f, k) {
            let p = place(f, k);
            assert(f[p].0@ == k);
            if p < e.len() {
                assert(e[p].0@ == k);
            }
        }
        if holds(e, k) {
            let p = place(e, k);
            assert(f[p].0@ == k);
        }
        if k == x.0@ {
            assert(f[e.len() as int].0@ == k);
        }
    }
    assert forall|k: K::V| a.contains_key(k) implies a[k] == b[k] by {
        let p = place(f, k);
        assert(f[p].0@ == k);
        lemma_place(f, p);
        if p < e.len() {
            lemma_place(e, p);
        }
    }
    assert(a =~= b);
}

proof fn lemma_remove<K: Same, T>(e: Seq<(K, T)>, i: int)
    requires
        distinct(e),
        0 <= i < e.len(),
    ensures
        distinct(e.remove(i)),
        map_of(e.remove(i)) == map_of(e).remove(e[i].0@),
{
    let f = e.remove(i);
    let g = |j: int| if j < i { j } else { j + 1 };
    assert(forall|j: int| 0 <= j < f.len() ==> (#[trigger] f[j]) == e[g(j)]);
    let a = map_of(f);
    let b = map_of(e).remove(e[i].0@);
    assert forall|k: K::V| a.contains_key(k) == b.contains_key(k) by {
        if holds(f, k) {
            let p = place(f, k);
            assert(f[p].0@ == k);
            assert(e[g(p)].0@ == k);
        }
        if holds(e, k) && k != e[i].0@ {
            let p = place(e, k);
            let q = if p < i { p } else { p - 1 };
            assert(f[q].0@ == k);
        }
    }
    assert forall|k: K::V| a.contains_key(k) implies a[k] == b[k] by {
        let p = place(f, k);
        assert(f[p].0@ == k);
        lemma_place(f, p);
        lemma_place(e, g(p));
    }
    assert(a =~= b);
}

proof fn lemma_count<K: Same, T>(e: Seq<(K, T)>)
    requires
        distinct(e),
    ensures
        map_of(e).dom().finite(),
        map_of(e).dom().len() == e.len(),
    decreases e.len(),
{
    if e.len() == 0 {
        assert(map_of(e).dom() =~= Set::empty());
    } else {
        let f = e.drop_last();
        assert(e =~= f.push(e.last()));
        assert(!holds(f, e.last().0@)) by {
            if holds(f, e.last().0@) {
                let p = place(f, e.last().0@);
                assert(f[p] == e[p]);
            }
        }
        lemma_count(f);
        lemma_push(f, e.last());
        assert(map_of(e).dom() =~= map_of(f).dom().insert(e.last().0@));
    }
}

/// A set of keys.
pub struct KeySet<K: Same> {
    items: Table<K, ()>,
}

impl<K: Same> View for KeySet<K> {
    type V = Set<K::V>;

    closed spec fn view(&self) -> Set<K::V> {
        self.items@.dom()
    }
}

impl<K: Same> KeySet<K> {
    /// An empty set.
    pub fn new() -> (r: Self)
        ensures
            r@ == Set::<K::V>::empty(),
    {
        let r = KeySet { items: Table::new() };
        assert(r@ =~= Set::<K::V>::empty());
        r
    }

    /// Whether `key` is in the set.
    pub fn contains(&self, key: &K) -> (r: bool)
        ensures
            r == self@.contains(key@),
    {
        self.items.contains(key)
    }

    /// Put `key` into the set.
    pub fn insert(&mut self, key: K)
        ensures
            final(self)@ == old(self)@.insert(key@),
    {
        self.items.insert(key, ());
        assert(self@ =~= old(self)@.insert(key@));
    }

    /// Take `key` out of the set.
    pub fn remove(&mut self, key: &K)
        ensures
            final(self)@ == old(self)@.remove(key@),
    {
        self.items.remove(key);
        assert(self@ =~= old(self)@.remove(key@));
    }

    /// How many keys the set holds.
    pub fn len(&self) -> (r: usize)
        ensures
            r == self@.len(),
            self@.finite(),
    {
        self.items.len()
    }

    /// Whether the set holds no key.
    pub fn is_empty(&self) -> (r: bool)
        ensures
            r == (self@ == Set::<K::V>::empty()),
    {
        let n: usize = self.len();
        proof {
            if n == 0 {
                assert(self@ =~= Set::empty());
            }
        }
        n == 0
    }
}

} // verus!
