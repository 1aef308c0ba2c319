//! A map that keeps its entries in the order of their keys.

use crate::text::{
    compare_text, lemma_text_order_equal, lemma_text_order_flip, lemma_text_order_transitive,
    text_order, Order,
};
use vstd::prelude::*;

verus! {

/// A key with a strict total order on its view.
pub trait OrderedKey: View + Sized {
    /// How the view `a` stands to the view `b`.
    spec fn order(a: Self::V, b: Self::V) -> Order;

    /// Compares two keys.
    fn compare_with(&self, other: &Self) -> (r: Order)
        ensures
            r == Self::order(self@, other@),
    ;

    /// A copy of the key.
    fn duplicate(&self) -> (r: Self)
        ensures
            r@ == self@,
    ;

    /// Two views compare as equal exactly when they are the same.
    proof fn lemma_order_equal(a: Self::V, b: Self::V)
        ensures
            Self::order(a, b) == Order::Equal <==> a == b,
    ;

    /// Swapping the two views swaps `Less` and `Greater`.
    proof fn lemma_order_flip(a: Self::V, b: Self::V)
        ensures
            Self::order(a, b) == Order::Less <==> Self::order(b, a) == Order::Greater,
    ;

    /// `Less` is transitive, also through `Equal`.
    proof fn lemma_order_transitive(a: Self::V, b: Self::V, c: Self::V)
        requires
            Self::order(a, b) == Order::Less,
            Self::order(b, c) != Order::Greater,
        ensures
            Self::order(a, c) == Order::Less,
    ;
}

impl OrderedKey for String {
    open spec fn order(a: Seq<char>, b: Seq<char>) -> Order {
        text_order(a, b)
    }

    fn compare_with(&self, other: &String) -> (r: Order) {
        compare_text(self.as_str(), other.as_str())
    }

    fn duplicate(&self) -> (r: String) {
        self.clone()
    }

    proof fn lemma_order_equal(a: Seq<char>, b: Seq<char>) {
        lemma_text_order_equal(a, b);
    }

    proof fn lemma_order_flip(a: Seq<char>, b: Seq<char>) {
        lemma_text_order_flip(a, b);
    }

    proof fn lemma_order_transitive(a: Seq<char>, b: Seq<char>, c: Seq<char>) {
        lemma_text_order_transitive(a, b, c);
    }
}

/// The order of two numbers.
pub open spec fn number_order(a: u128, b: u128) -> Order {
    if a < b {
        Order::Less
    } else if a == b {
        Order::Equal
    } else {
        Order::Greater
    }
}

impl OrderedKey for u128 {
    open spec fn order(a: u128, b: u128) -> Order {
        number_order(a, b)
    }

    fn compare_with(&self, other: &u128) -> (r: Order) {
        if *self < *other {
            Order::Less
        } else if *self == *other {
            Order::Equal
        } else {
            Order::Greater
        }
    }

    fn duplicate(&self) -> (r: u128) {
        *self
    }

    proof fn lemma_order_equal(a: u128, b: u128) {
    }

    proof fn lemma_order_flip(a: u128, b: u128) {
    }

    proof fn lemma_order_transitive(a: u128, b: u128, c: u128) {
    }
}

/// A map from keys to values whose entries stand in the strict order of
/// their keys.
#[derive(Debug)]
pub struct OrderedMap<K: OrderedKey, V> {
    pub entries: Vec<(K, V)>,
}

/// The keys of a sequence of entries, in order.
pub open spec fn entry_keys<K: OrderedKey, V>(entries: Seq<(K, V)>) -> Seq<K::V> {
    Seq::new(entries.len(), |i: int| entries[i].0@)
}

/// Each key is less than every key behind it.
pub open spec fn strictly_ordered<K: OrderedKey>(keys: Seq<K::V>) -> bool {
    forall|i: int, j: int|
        0 <= i < j < keys.len() ==> K::order(#[trigger] keys[i], #[trigger] keys[j])
            == Order::Less
}

/// In a strictly ordered sequence no key stands twice.
pub proof fn lemma_ordered_keys_distinct<K: OrderedKey>(keys: Seq<K::V>)
    requires
        strictly_ordered::<K>(keys),
    ensures
        keys.no_duplicates(),
{
    assert forall|i: int, j: int| 0 <= i < keys.len() && 0 <= j < keys.len() && i != j implies keys[i]
        != keys[j] by {
        K::lemma_order_equal(keys[i], keys[j]);
        K::lemma_order_equal(keys[j], keys[i]);
    }
}

impl<K: OrderedKey, V> OrderedMap<K, V> {
    /// The keys, in order.
    pub open spec fn keys(&self) -> Seq<K::V> {
        entry_keys(self.entries@)
    }

    /// The entries stand in the strict order of their keys.
    pub open spec fn wf(&self) -> bool {
        strictly_ordered::<K>(self.keys())
    }

    /// The map holds the key.
    pub open spec fn contains(&self, key: K::V) -> bool {
        exists|i: int| 0 <= i < self.entries@.len() && #[trigger] self.entries@[i].0@ == key
    }

    /// The index at which the key stands, for a key that the map holds.
    pub open spec fn index_of(&self, key: K::V) -> int {
        choose|i: int| 0 <= i < self.entries@.len() && #[trigger] self.entries@[i].0@ == key
    }

    /// The mapping from keys to values.
    pub open spec fn view(&self) -> Map<K::V, V> {
        Map::new(|key: K::V| self.contains(key), |key: K::V| self.entries@[self.index_of(key)].1)
    }

    /// A key that stands at an index is found at that index.
    pub proof fn lemma_index_of(&self, i: int)
        requires
            self.wf(),
            0 <= i < self.entries@.len(),
        ensures
            self.contains(self.entries@[i].0@),
            self.index_of(self.entries@[i].0@) == i,
            self@.dom().contains(self.entries@[i].0@),
            self@[self.entries@[i].0@] == self.entries@[i].1,
    {
        lemma_ordered_keys_distinct::<K>(self.keys());
        let key = self.entries@[i].0@;
        let j = self.index_of(key);
        assert(self.keys()[j] == self.keys()[i]);
    }

    /// An empty map.
    pub fn new() -> (r: Self)
        ensures
            r.wf(),
            r.entries@.len() == 0,
            r@ == Map::<K::V, V>::empty(),
    {
        let r = OrderedMap { entries: Vec::new() };
        assert(r@ =~= Map::<K::V, V>::empty());
        r
    }

    /// The number of entries.
    pub fn len(&self) -> (r: usize)
        ensures
            r == self.entries@.len(),
    {
        self.entries.len()
    }

    /// Where the key stands, or where it would have to stand: the index, and
    /// whether the key is there.
    pub fn position(&self, key: &K) -> (r: (usize, bool))
        requires
            self.wf(),
        ensures
            r.0 <= self.entries@.len(),
            r.1 ==> r.0 < self.entries@.len() && self.entries@[r.0 as int].0@ == key@,
            r.1 == self.contains(key@),
            forall|i: int| 0 <= i < r.0 ==> K::order(self.keys()[i], key@) == Order::Less,
            forall|i: int|
                r.0 <= i < self.entries@.len() && !(r.1 && i == r.0) ==> K::order(
                    key@,
                    self.keys()[i],
                ) == Order::Less,
    {
        let mut i: usize = 0;
        while i < self.entries.len()
            invariant
                i <= self.entries@.len(),
                self.wf(),
                forall|j: int| 0 <= j < i ==> K::order(self.keys()[j], key@) == Order::Less,
            decreases self.entries@.len() - i,
        {
            let ghost here = self.keys()[i as int];
            match self.entries[i].0.compare_with(key) {
                Order::Less => {},
                Order::Equal => {
                    proof {
                        K::lemma_order_equal(here, key@);
                    }
                    return (i, true);
                },
                Order::Greater => {
                    proof {
                        K::lemma_order_flip(key@, here);
                        assert forall|j: int| i <= j < self.entries@.len() implies K::order(
                            key@,
                            self.keys()[j],
                        ) == Order::Less by {
                            if j > i {
                                K::lemma_order_transitive(key@, here, self.keys()[j]);
                            }
                        }
                        assert forall|j: int|
                            0 <= j < self.entries@.len() implies self.entries@[j].0@ != key@ by {
                            K::lemma_order_equal(self.keys()[j], key@);
                            K::lemma_order_equal(key@, self.keys()[j]);
                        }
                    }
                    return (i, false);
                },
            }
            i = i + 1;
        }
        proof {
            assert forall|j: int| 0 <= j < self.entries@.len() implies self.entries@[j].0@
                != key@ by {
                K::lemma_order_equal(self.keys()[j], key@);
            }
        }
        (i, false)
    }

    /// The value of a key, where the map holds it.
    pub fn get(&self, key: &K) -> (r: Option<&V>)
        requires
            self.wf(),
        ensures
            r is Some == self@.dom().contains(key@),
            r matches Some(v) ==> *v == self@[key@],
    {
        let (i, found) = self.position(key);
        if found {
            proof {
                self.lemma_index_of(i as int);
            }
            Some(&self.entries[i].1)
        } else {
            None
        }
    }

    /// Sets the value of a key: a key that the map holds keeps its place, a
    /// new key takes the place that the order gives it.
    pub fn insert(&mut self, key: K, value: V)
        requires
            old(self).wf(),
        ensures
            final(self).wf(),
            final(self)@ == old(self)@.insert(key@, value),
            old(self)@.dom().contains(key@) ==> final(self).keys() == old(self).keys(),
            !old(self)@.dom().contains(key@) ==> exists|i: int|
                0 <= i <= old(self).keys().len() && final(self).keys() == old(self).keys().insert(
                    i,
                    key@,
                ),
    {
        let (i, found) = self.position(&key);
        let ghost before = *self;
        let ghost k = key@;
        if found {
            self.entries.set(i, (key, value));
            proof {
                assert(self.keys() =~= before.keys());
                assert forall|q: K::V| self.contains(q) == before.contains(q) by {
                    if self.contains(q) {
                        let j = self.index_of(q);
                        assert(before.entries@[j].0@ == q);
                    }
                    if before.contains(q) {
                        let j = before.index_of(q);
                        assert(self.entries@[j].0@ == q);
                    }
                }
                assert forall|q: K::V| self.contains(q) implies self.entries@[self.index_of(q)].1
                    == before@.insert(k, value)[q] by {
                    let j = self.index_of(q);
                    self.lemma_index_of(j);
                    before.lemma_index_of(j);
                    before.lemma_index_of(i as int);
                    if j != i {
                        assert(self.entries@[j] == before.entries@[j]);
                        lemma_ordered_keys_distinct::<K>(before.keys());
                        assert(before.keys()[j] != before.keys()[i as int]);
                    }
                }
                assert(self@ =~= before@.insert(k, value));
            }
        } else {
            self.entries.insert(i, (key, value));
            proof {
                assert(self.keys() =~= before.keys().insert(i as int, k));
                assert forall|a: int, b: int| 0 <= a < b < self.keys().len() implies K::order(
                    #[trigger] self.keys()[a],
                    #[trigger] self.keys()[b],
                ) == Order::Less by {
                    if a < i && b > i {
                        assert(self.keys()[a] == before.keys()[a]);
                        assert(self.keys()[b] == before.keys()[b - 1]);
                    } else if a < i && b < i {
                        assert(self.keys()[a] == before.keys()[a]);
                        assert(self.keys()[b] == before.keys()[b]);
                    } else if a > i {
                        assert(self.keys()[a] == before.keys()[a - 1]);
                        assert(self.keys()[b] == before.keys()[b - 1]);
                    } else if a == i {
                        assert(self.keys()[b] == before.keys()[b - 1]);
                    } else {
                        assert(self.keys()[a] == before.keys()[a]);
                    }
                }
                assert forall|q: K::V| self.contains(q) == (before.contains(q) || q == k) by {
                    if self.contains(q) {
                        let j = self.index_of(q);
                        if j < i {
                            assert(before.entries@[j].0@ == q);
                        } else if j > i {
                            assert(before.entries@[j - 1].0@ == q);
                        }
                    }
                    if before.contains(q) {
                        let j = before.index_of(q);
                        if j < i {
                            assert(self.entries@[j].0@ == q);
                        } else {
                            assert(self.entries@[j + 1].0@ == q);
                        }
                    }
                    if q == k {
                        assert(self.entries@[i as int].0@ == q);
                    }
                }
                assert forall|q: K::V| self.contains(q) implies self.entries@[self.index_of(q)].1
                    == before@.insert(k, value)[q] by {
                    let j = self.index_of(q);
                    assert(self.wf());
                    self.lemma_index_of(j);
                    if j < i {
                        assert(self.entries@[j] == before.entries@[j]);
                        before.lemma_index_of(j);
                        assert(before.contains(q));
                    } else if j > i {
                        assert(self.entries@[j] == before.entries@[j - 1]);
                        before.lemma_index_of(j - 1);
                        assert(before.contains(q));
                    } else {
                        assert(self.entries@[j].1 == value);
                    }
                }
                assert(self@ =~= before@.insert(k, value));
            }
        }
    }

    /// Takes the entry of a key out of the map and hands its value back.
    pub fn remove(&mut self, key: &K) -> (r: Option<V>)
        requires
            old(self).wf(),
        ensures
            final(self).wf(),
            final(self)@ == old(self)@.remove(key@),
            r is Some == old(self)@.dom().contains(key@),
            r matches Some(v) ==> v == old(self)@[key@],
            final(self).keys().len() <= old(self).keys().len(),
    {
        let (i, found) = self.position(key);
        let ghost before = *self;
        let ghost k = key@;
        if found {
            proof {
                before.lemma_index_of(i as int);
            }
            let entry = self.entries.remove(i);
            proof {
                assert(self.keys() =~= before.keys().remove(i as int));
                assert forall|a: int, b: int| 0 <= a < b < self.keys().len() implies K::order(
                    #[trigger] self.keys()[a],
                    #[trigger] self.keys()[b],
                ) == Order::Less by {
                    let a0 = if a < i { a } else { a + 1 };
                    let b0 = if b < i { b } else { b + 1 };
                    assert(self.keys()[a] == before.keys()[a0]);
                    assert(self.keys()[b] == before.keys()[b0]);
                }
                lemma_ordered_keys_distinct::<K>(before.keys());
                assert forall|q: K::V| self.contains(q) == (before.contains(q) && q != k) by {
                    if self.contains(q) {
                        let j = self.index_of(q);
                        let j0 = if j < i { j } else { j + 1 };
                        assert(before.entries@[j0].0@ == q);
                        assert(before.keys()[j0] == q);
                        assert(before.keys()[i as int] == k);
                    }
                    if before.contains(q) && q != k {
                        let j = before.index_of(q);
                        if j < i {
                            assert(self.entries@[j].0@ == q);
                        } else {
                            assert(self.entries@[j - 1].0@ == q);
                        }
                    }
                }
                assert forall|q: K::V| self.contains(q) implies self.entries@[self.index_of(q)].1
                    == before@.remove(k)[q] by {
                    let j = self.index_of(q);
                    self.lemma_index_of(j);
                    if j < i {
                        before.lemma_index_of(j);
                    } else {
                        before.lemma_index_of(j + 1);
                    }
                }
                assert(self@ =~= before@.remove(k));
            }
            Some(entry.1)
        } else {
            assert(self@ =~= before@.remove(k));
            None
        }
    }
}

} // verus!
