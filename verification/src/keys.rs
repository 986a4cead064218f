//! Values that tables are keyed by, and lists of such values.

use vstd::prelude::*;
use crate::types::Address;

verus! {

/// A value with an executable equality test that agrees with `==` in
/// specifications.
pub trait Key: Copy {
    fn same(&self, other: &Self) -> (equal: bool)
        ensures
            equal == (*self == *other),
    ;
}

impl Key for [u8; 32] {
    fn same(&self, other: &Self) -> (equal: bool) {
        let mut i: usize = 0;
        while i < 32
            invariant
                i <= 32,
                forall|j: int| 0 <= j < i ==> self[j] == other[j],
            decreases 32 - i,
        {
            if self[i] != other[i] {
                return false;
            }
            i += 1;
        }
        assert(*self =~= *other);
        true
    }
}

impl Key for u64 {
    fn same(&self, other: &Self) -> (equal: bool) {
        *self == *other
    }
}

impl Key for Address {
    fn same(&self, other: &Self) -> (equal: bool) {
        self.kind == other.kind && self.key.same(&other.key)
    }
}

/// The index of the first element of `list` that `hit` holds of, or -1.
pub open spec fn first_index<T>(list: Seq<T>, hit: spec_fn(T) -> bool) -> int
    decreases list.len(),
{
    if list.len() == 0 {
        -1
    } else {
        let earlier = first_index(list.drop_last(), hit);
        if earlier >= 0 {
            earlier
        } else if hit(list.last()) {
            list.len() - 1
        } else {
            -1
        }
    }
}

/// `first_index` is in range, hits, and nothing before it does.
pub proof fn lemma_first_index<T>(list: Seq<T>, hit: spec_fn(T) -> bool)
    ensures
        -1 <= first_index(list, hit) < list.len(),
        first_index(list, hit) >= 0 ==> hit(list[first_index(list, hit)]),
        forall|i: int| 0 <= i < list.len() && hit(#[trigger] list[i]) ==> 0 <= first_index(list, hit) <= i,
    decreases list.len(),
{
    if list.len() > 0 {
        lemma_first_index(list.drop_last(), hit);
        assert forall|i: int| 0 <= i < list.len() && hit(#[trigger] list[i]) implies 0 <= first_index(list, hit)
            <= i by {
            if i < list.len() - 1 {
                assert(list.drop_last()[i] == list[i]);
            }
        }
    }
}

/// The first hit of a list is `at` where `at` hits and nothing before does.
pub proof fn lemma_first_index_is<T>(list: Seq<T>, hit: spec_fn(T) -> bool, at: int)
    requires
        0 <= at < list.len(),
        hit(list[at]),
        forall|i: int| 0 <= i < at ==> !hit(#[trigger] list[i]),
    ensures
        first_index(list, hit) == at,
{
    lemma_first_index(list, hit);
    let found = first_index(list, hit);
    if found < at {
        assert(!hit(list[found]));
    }
}

/// A list of which nothing hits has no first hit.
pub proof fn lemma_first_index_none<T>(list: Seq<T>, hit: spec_fn(T) -> bool)
    requires
        forall|i: int| 0 <= i < list.len() ==> !hit(#[trigger] list[i]),
    ensures
        first_index(list, hit) == -1,
{
    lemma_first_index(list, hit);
    let found = first_index(list, hit);
    if found >= 0 {
        assert(!hit(list[found]));
    }
}

/// The first hit of a list that grew by one element.
pub proof fn lemma_first_index_push<T>(list: Seq<T>, last: T, hit: spec_fn(T) -> bool)
    ensures
        first_index(list.push(last), hit) == if first_index(list, hit) >= 0 {
            first_index(list, hit)
        } else if hit(last) {
            list.len() as int
        } else {
            -1
        },
{
    assert(list.push(last).drop_last() =~= list);
}

/// The predicate that holds of `key` alone.
pub open spec fn is_key<K>(key: K) -> spec_fn(K) -> bool {
    |other: K| other == key
}

/// `list` without every occurrence of `key`.
pub open spec fn without<K>(list: Seq<K>, key: K) -> Seq<K>
    decreases list.len(),
{
    if list.len() == 0 {
        list
    } else if list.last() == key {
        without(list.drop_last(), key)
    } else {
        without(list.drop_last(), key).push(list.last())
    }
}

/// Membership in a list that grew by one element.
pub proof fn lemma_push_contains<K>(list: Seq<K>, last: K, key: K)
    ensures
        list.push(last).contains(key) <==> (list.contains(key) || last == key),
{
    let grown = list.push(last);
    if list.contains(key) {
        let i = choose|i: int| 0 <= i < list.len() && list[i] == key;
        assert(grown[i] == key);
    }
    if last == key {
        assert(grown[list.len() as int] == key);
    }
    if grown.contains(key) {
        let i = choose|i: int| 0 <= i < grown.len() && grown[i] == key;
        if i < list.len() {
            assert(list[i] == key);
        }
    }
}

/// A list without duplicates stays so when an element that it lacks is added.
pub proof fn lemma_push_no_duplicates<K>(list: Seq<K>, last: K)
    requires
        list.no_duplicates(),
        !list.contains(last),
    ensures
        list.push(last).no_duplicates(),
{
    let grown = list.push(last);
    assert forall|i: int, j: int| 0 <= i < grown.len() && 0 <= j < grown.len() && i != j implies grown[i]
        != grown[j] by {
        if i < list.len() && j < list.len() {
        } else if i < list.len() {
            assert(list[i] == grown[i]);
            assert(list.contains(list[i]));
        } else {
            assert(list[j] == grown[j]);
            assert(list.contains(list[j]));
        }
    }
}

/// What `without` keeps and what it drops.
pub proof fn lemma_without<K>(list: Seq<K>, key: K)
    ensures
        forall|other: K| #[trigger]
            without(list, key).contains(other) <==> (other != key && list.contains(other)),
        list.no_duplicates() ==> without(list, key).no_duplicates(),
        !list.contains(key) ==> without(list, key) == list,
        without(list, key).len() <= list.len(),
    decreases list.len(),
{
    if list.len() > 0 {
        let front = list.drop_last();
        let last = list.last();
        let kept = without(front, key);
        lemma_without(front, key);
        assert(list =~= front.push(last));
        assert forall|other: K| #[trigger]
            without(list, key).contains(other) <==> (other != key && list.contains(other)) by {
            lemma_push_contains(front, last, other);
            lemma_push_contains(kept, last, other);
            assert(kept.contains(other) <==> (other != key && front.contains(other)));
        }
        lemma_push_contains(front, last, key);
        if last != key {
            if list.no_duplicates() {
                assert(front.no_duplicates());
                assert(kept.contains(last) <==> (last != key && front.contains(last)));
                if front.contains(last) {
                    let i = choose|i: int| 0 <= i < front.len() && front[i] == last;
                    assert(list[i] == list[list.len() - 1]);
                }
                lemma_push_no_duplicates(kept, last);
            }
        } else {
            if list.no_duplicates() {
                assert(front.no_duplicates());
            }
        }
    }
}

/// Whether `key` occurs in `list`.
pub fn contains_key<K: Key>(list: &Vec<K>, key: &K) -> (found: bool)
    ensures
        found == list@.contains(*key),
{
    let mut i: usize = 0;
    while i < list.len()
        invariant
            i <= list.len(),
            forall|j: int| 0 <= j < i ==> list@[j] != *key,
        decreases list.len() - i,
    {
        if list[i].same(key) {
            return true;
        }
        i += 1;
    }
    false
}

/// A copy of `list` without every occurrence of `key`, the rest in order.
pub fn remove_key<K: Key>(list: &Vec<K>, key: &K) -> (rest: Vec<K>)
    ensures
        rest@ == without(list@, *key),
{
    let mut rest: Vec<K> = Vec::new();
    let mut i: usize = 0;
    while i < list.len()
        invariant
            i <= list.len(),
            rest@ == without(list@.take(i as int), *key),
        decreases list.len() - i,
    {
        proof {
            assert(list@.take(i + 1).drop_last() =~= list@.take(i as int));
        }
        if !list[i].same(key) {
            rest.push(list[i]);
        }
        i += 1;
    }
    proof {
        assert(list@.take(list.len() as int) =~= list@);
    }
    rest
}

/// A copy of `list`.
pub fn copy_keys<K: Key>(list: &Vec<K>) -> (copy: Vec<K>)
    ensures
        copy@ == list@,
{
    let mut copy: Vec<K> = Vec::new();
    let mut i: usize = 0;
    while i < list.len()
        invariant
            i <= list.len(),
            copy@ == list@.take(i as int),
        decreases list.len() - i,
    {
        copy.push(list[i]);
        proof {
            assert(list@.take(i + 1) =~= list@.take(i as int).push(list@[i as int]));
        }
        i += 1;
    }
    proof {
        assert(list@.take(list.len() as int) =~= list@);
    }
    copy
}

/// Lists of values, one list for each key that has had a value added.
pub struct Index<K: Key, V: Key> {
    keys: Vec<K>,
    lists: Vec<Vec<V>>,
}

impl<K: Key, V: Key> Index<K, V> {
    /// The invariant of the representation: one list for each key, and no
    /// key twice.
    pub closed spec fn wf(&self) -> bool {
        &&& self.keys.len() == self.lists.len()
        &&& self.keys@.no_duplicates()
    }

    /// The values listed under `key`, in the order in which they were added.
    pub closed spec fn list(&self, key: K) -> Seq<V> {
        let at = first_index(self.keys@, is_key(key));
        if at >= 0 {
            self.lists@[at]@
        } else {
            Seq::empty()
        }
    }

    /// An index with nothing in it.
    pub fn new() -> (index: Self)
        ensures
            index.wf(),
            forall|key: K| #[trigger] index.list(key) == Seq::<V>::empty(),
    {
        Index { keys: Vec::new(), lists: Vec::new() }
    }

    fn find(&self, key: &K) -> (at: Option<usize>)
        requires
            self.wf(),
        ensures
            match at {
                Some(at) => at < self.keys.len() && at == first_index(self.keys@, is_key(*key))
                    && self.keys@[at as int] == *key,
                None => first_index(self.keys@, is_key(*key)) == -1,
            },
    {
        let mut i: usize = 0;
        while i < self.keys.len()
            invariant
                i <= self.keys.len(),
                forall|j: int| 0 <= j < i ==> !is_key(*key)(#[trigger] self.keys@[j]),
            decreases self.keys.len() - i,
        {
            if self.keys[i].same(key) {
                proof {
                    lemma_first_index_is(self.keys@, is_key(*key), i as int);
                }
                return Some(i);
            }
            i += 1;
        }
        proof {
            lemma_first_index_none(self.keys@, is_key(*key));
        }
        None
    }

    /// The values listed under `key`.
    pub fn get(&self, key: &K) -> (list: Vec<V>)
        requires
            self.wf(),
        ensures
            list@ == self.list(*key),
    {
        match self.find(key) {
            Some(at) => copy_keys(&self.lists[at]),
            None => Vec::new(),
        }
    }

    /// Puts `list` in the place of the values listed under `key`.
    pub fn set(&mut self, key: K, list: Vec<V>)
        requires
            old(self).wf(),
        ensures
            final(self).wf(),
            final(self).list(key) == list@,
            forall|other: K| other != key ==> #[trigger] final(self).list(other) == old(self).list(other),
    {
        match self.find(&key) {
            Some(at) => {
                self.lists.set(at, list);
                proof {
                    assert forall|other: K| other != key implies #[trigger] self.list(other) == old(
                        self,
                    ).list(other) by {
                        lemma_first_index(self.keys@, is_key(other));
                    }
                }
            },
            None => {
                proof {
                    lemma_first_index(self.keys@, is_key(key));
                    assert(!self.keys@.contains(key)) by {
                        if self.keys@.contains(key) {
                            let i = choose|i: int| 0 <= i < self.keys@.len() && self.keys@[i] == key;
                            assert(is_key(key)(self.keys@[i]));
                        }
                    }
                    lemma_push_no_duplicates(self.keys@, key);
                    lemma_first_index_push(self.keys@, key, is_key(key));
                }
                self.keys.push(key);
                self.lists.push(list);
                proof {
                    assert forall|other: K| other != key implies #[trigger] self.list(other) == old(
                        self,
                    ).list(other) by {
                        lemma_first_index_push(old(self).keys@, key, is_key(other));
                        lemma_first_index(old(self).keys@, is_key(other));
                    }
                }
            },
        }
    }

    /// Adds `value` at the end of the list of `key`.
    pub fn add(&mut self, key: K, value: V)
        requires
            old(self).wf(),
        ensures
            final(self).wf(),
            final(self).list(key) == old(self).list(key).push(value),
            forall|other: K| other != key ==> #[trigger] final(self).list(other) == old(self).list(other),
    {
        let mut list = self.get(&key);
        list.push(value);
        self.set(key, list);
    }

    /// Takes every occurrence of `value` out of the list of `key`.
    pub fn remove(&mut self, key: K, value: &V)
        requires
            old(self).wf(),
        ensures
            final(self).wf(),
            final(self).list(key) == without(old(self).list(key), *value),
            forall|other: K| other != key ==> #[trigger] final(self).list(other) == old(self).list(other),
    {
        let list = self.get(&key);
        let rest = remove_key(&list, value);
        self.set(key, rest);
    }
}

} // verus!
