//! A map from strings to values that is walked in the order of its keys.

use vstd::prelude::*;

use crate::text::Place;

verus! {

/// A type whose values can be copied without loss, as far as their views tell.
pub trait Duplicate: View + Sized {
    /// A value with the same view.
    fn duplicate(&self) -> (r: Self)
        ensures
            r@ == self@,
    ;
}

/// A type whose values can be turned into values of another type with the same view.
pub trait Recast<U: View<V = Self::V>>: View + Sized {
    /// A value of the other type with the same view.
    fn recast(&self) -> (r: U)
        ensures
            r@ == self@,
    ;
}

impl Duplicate for String {
    fn duplicate(&self) -> (r: Self) {
        self.clone()
    }
}

impl Duplicate for u64 {
    fn duplicate(&self) -> (r: Self) {
        *self
    }
}

impl Duplicate for u32 {
    fn duplicate(&self) -> (r: Self) {
        *self
    }
}

struct Entries<V> {
    keys: Vec<String>,
    values: Vec<V>,
}

/// A map with string keys, kept sorted by key.
pub struct StrMap<V> {
    entries: Entries<V>,
}

impl<V> Entries<V> {
    spec fn order(self) -> Seq<Seq<char>> {
        Seq::new(self.keys@.len(), |i: int| self.keys@[i]@)
    }

    spec fn well_formed(self) -> bool {
        &&& self.keys@.len() == self.values@.len()
        &&& sorted(self.order())
    }
}

impl<V: View> Entries<V> {
    spec fn contents(self) -> Map<Seq<char>, V::V> {
        Map::new(
            |k: Seq<char>| self.order().contains(k),
            |k: Seq<char>| self.values@[self.order().index_of(k)]@,
        )
    }
}

/// Each key of the sequence precedes all later ones.
pub open spec fn sorted(keys: Seq<Seq<char>>) -> bool {
    forall|i: int, j: int|
        0 <= i < j < keys.len() ==> crate::text::precedes(#[trigger] keys[i], #[trigger] keys[j])
}

/// In a sorted sequence of keys each key stands once.
pub proof fn sorted_is_distinct(keys: Seq<Seq<char>>)
    requires
        sorted(keys),
    ensures
        keys.no_duplicates(),
        forall|i: int| 0 <= i < keys.len() ==> keys.index_of(#[trigger] keys[i]) == i,
{
    assert forall|i: int, j: int| 0 <= i < keys.len() && 0 <= j < keys.len() && i != j implies keys[i]
        != keys[j] by {
        if i < j {
            assert(crate::text::precedes(keys[i], keys[j]));
        } else {
            assert(crate::text::precedes(keys[j], keys[i]));
        }
        crate::text::precedes_irreflexive(keys[i]);
    }
    assert forall|i: int| 0 <= i < keys.len() implies keys.index_of(#[trigger] keys[i]) == i by {
        assert(keys.contains(keys[i]));
    }
}

impl<V: View> View for StrMap<V> {
    type V = Map<Seq<char>, V::V>;

    closed spec fn view(&self) -> Map<Seq<char>, V::V> {
        self.entries.contents()
    }
}

impl<V> StrMap<V> {
    #[verifier::type_invariant]
    spec fn well_formed(self) -> bool {
        self.entries.well_formed()
    }

    /// The keys, in order.
    pub closed spec fn order(&self) -> Seq<Seq<char>> {
        self.entries.order()
    }
}

impl<V: View> StrMap<V> {
    /// Whether the keys in order are sorted and all there are.
    pub open spec fn ordered(&self) -> bool {
        &&& sorted(self.order())
        &&& forall|k: Seq<char>| #[trigger] self@.dom().contains(k) <==> self.order().contains(k)
    }

    /// A map without entries.
    pub fn new() -> (r: Self)
        ensures
            r@ == Map::<Seq<char>, V::V>::empty(),
            r.order() == Seq::<Seq<char>>::empty(),
    {
        let entries = Entries { keys: Vec::new(), values: Vec::new() };
        StrMap { entries }
    }

    /// The position of the key, or the position at which it would have to be inserted.
    fn find(&self, key: &str) -> (r: (bool, usize))
        ensures
            r.1 <= self.order().len(),
            r.0 ==> r.1 < self.order().len() && self.order()[r.1 as int] == key@,
            !r.0 ==> !self.order().contains(key@),
            forall|i: int| 0 <= i < r.1 ==> crate::text::precedes(#[trigger] self.order()[i], key@),
            forall|i: int|
                r.1 <= i < self.order().len() && !r.0 ==> crate::text::precedes(
                    key@,
                    #[trigger] self.order()[i],
                ),
    {
        proof {
            use_type_invariant(self);
        }
        let ghost order = self.order();
        let mut lo: usize = 0;
        let mut hi: usize = self.entries.keys.len();
        while lo < hi
            invariant
                lo <= hi <= self.entries.keys@.len(),
                order == self.order(),
                sorted(order),
                forall|i: int| 0 <= i < lo ==> crate::text::precedes(#[trigger] order[i], key@),
                forall|i: int|
                    hi <= i < order.len() ==> crate::text::precedes(key@, #[trigger] order[i]),
            decreases hi - lo,
        {
            let mid: usize = lo + (hi - lo) / 2;
            let there = crate::text::place(self.entries.keys[mid].as_str(), key);
            assert(order[mid as int] == self.entries.keys@[mid as int]@);
            match there {
                Place::Same => {
                    return (true, mid);
                },
                Place::Before => {
                    proof {
                        assert forall|i: int| 0 <= i < mid + 1 implies crate::text::precedes(
                            #[trigger] order[i],
                            key@,
                        ) by {
                            if i < mid {
                                crate::text::precedes_transitive(order[i], order[mid as int], key@);
                            }
                        }
                    }
                    lo = mid + 1;
                },
                Place::After => {
                    proof {
                        assert forall|i: int| mid <= i < order.len() implies crate::text::precedes(
                            key@,
                            #[trigger] order[i],
                        ) by {
                            if i > mid {
                                crate::text::precedes_transitive(key@, order[mid as int], order[i]);
                            }
                        }
                    }
                    hi = mid;
                },
            }
        }
        proof {
            crate::text::precedes_irreflexive(key@);
            if order.contains(key@) {
                let i = order.index_of(key@);
                assert(order[i] == key@);
            }
        }
        (false, lo)
    }

    /// Whether the map has an entry for the key.
    pub fn contains(&self, key: &str) -> (r: bool)
        ensures
            r == self@.dom().contains(key@),
    {
        let (found, at) = self.find(key);
        proof {
            if found {
                assert(self.order().contains(key@));
            }
        }
        found
    }

    /// The value of the key.
    pub fn get(&self, key: &str) -> (r: Option<&V>)
        ensures
            match r {
                Some(v) => self@.dom().contains(key@) && v@ == self@[key@],
                None => !self@.dom().contains(key@),
            },
    {
        proof {
            use_type_invariant(self);
            sorted_is_distinct(self.order());
        }
        let (found, at) = self.find(key);
        if found {
            assert(self.order().contains(self.order()[at as int]));
            Some(&self.entries.values[at])
        } else {
            None
        }
    }

    /// The number of entries. The order lists the keys of the map, each once, sorted.
    pub fn len(&self) -> (r: usize)
        ensures
            r == self.order().len(),
            sorted(self.order()),
            forall|k: Seq<char>| #[trigger] self@.dom().contains(k) <==> self.order().contains(k),
    {
        proof {
            use_type_invariant(self);
        }
        self.entries.keys.len()
    }

    /// The key at a position of the order.
    pub fn key_at(&self, i: usize) -> (r: &String)
        requires
            i < self.order().len(),
        ensures
            r@ == self.order()[i as int],
    {
        &self.entries.keys[i]
    }

    /// The value of the key at a position of the order.
    pub fn value_at(&self, i: usize) -> (r: &V)
        requires
            i < self.order().len(),
        ensures
            r@ == self@[self.order()[i as int]],
            self@.dom().contains(self.order()[i as int]),
    {
        proof {
            use_type_invariant(self);
            sorted_is_distinct(self.order());
            assert(self.order().contains(self.order()[i as int]));
        }
        &self.entries.values[i]
    }

    /// Gives the key a value, in place of the one it may have had.
    pub fn insert(&mut self, key: String, value: V)
        ensures
            final(self)@ == old(self)@.insert(key@, value@),
    {
        proof {
            use_type_invariant(&*self);
            sorted_is_distinct(self.order());
        }
        let ghost before = self.entries;
        let (found, at) = self.find(key.as_str());
        let mut entries = Entries { keys: Vec::new(), values: Vec::new() };
        core::mem::swap(&mut entries, &mut self.entries);
        assert(entries == before);
        if found {
            entries.values.set(at, value);
            proof {
                assert(entries.order() == before.order());
                assert(before.order().contains(key@));
                assert(entries.contents() =~= before.contents().insert(key@, value@));
            }
        } else {
            let ghost k = key@;
            entries.keys.insert(at, key);
            entries.values.insert(at, value);
            proof {
                let (o, n) = (before.order(), entries.order());
                assert(n =~= o.insert(at as int, k));
                assert(sorted(n));
                sorted_is_distinct(n);
                assert forall|x: Seq<char>| #[trigger] entries.contents().dom().contains(x)
                    == before.contents().insert(k, value@).dom().contains(x) by {
                    if x == k {
                        assert(n[at as int] == k);
                    } else if o.contains(x) {
                        let i = o.index_of(x);
                        assert(n[if i < at { i } else { i + 1 }] == x);
                    } else if n.contains(x) {
                        let i = n.index_of(x);
                        assert(o[if i < at { i } else { i - 1 }] == x);
                    }
                }
                assert forall|x: Seq<char>| entries.contents().dom().contains(x) implies
                    #[trigger] entries.contents()[x] == before.contents().insert(k, value@)[x] by {
                    if x == k {
                        assert(n[at as int] == k);
                    } else {
                        assert(o.contains(x));
                        let i = o.index_of(x);
                        assert(n[if i < at { i } else { i + 1 }] == x);
                    }
                }
                assert(entries.contents() =~= before.contents().insert(k, value@));
            }
        }
        self.entries = entries;
    }

    /// Takes the entry of the key out of the map.
    pub fn remove(&mut self, key: &str) -> (r: Option<V>)
        ensures
            final(self)@ == old(self)@.remove(key@),
            match r {
                Some(v) => old(self)@.dom().contains(key@) && v@ == old(self)@[key@],
                None => !old(self)@.dom().contains(key@),
            },
    {
        proof {
            use_type_invariant(&*self);
            sorted_is_distinct(self.order());
        }
        let ghost before = self.entries;
        let (found, at) = self.find(key);
        if !found {
            assert(self@ =~= old(self)@.remove(key@));
            return None;
        }
        let mut entries = Entries { keys: Vec::new(), values: Vec::new() };
        core::mem::swap(&mut entries, &mut self.entries);
        entries.keys.remove(at);
        let value = entries.values.remove(at);
        proof {
            let (o, n) = (before.order(), entries.order());
            assert(n =~= o.remove(at as int));
            assert(sorted(n));
            sorted_is_distinct(n);
            assert(o.contains(o[at as int]));
            assert forall|x: Seq<char>| #[trigger] entries.contents().dom().contains(x)
                == before.contents().remove(key@).dom().contains(x) by {
                if n.contains(x) {
                    let i = n.index_of(x);
                    assert(o[if i < at { i } else { i + 1 }] == x);
                } else if o.contains(x) && x != key@ {
                    let i = o.index_of(x);
                    assert(n[if i < at { i } else { i - 1 }] == x);
                }
            }
            assert forall|x: Seq<char>| entries.contents().dom().contains(x) implies
                #[trigger] entries.contents()[x] == before.contents().remove(key@)[x] by {
                let i = n.index_of(x);
                assert(o[if i < at { i } else { i + 1 }] == x);
            }
            assert(entries.contents() =~= before.contents().remove(key@));
        }
        self.entries = entries;
        Some(value)
    }
}

impl<V: View> StrMap<V> {
    /// The same map with values of another type.
    pub fn recast<U: View<V = V::V>>(&self) -> (r: StrMap<U>) where V: Recast<U>
        ensures
            r@ == self@,
    {
        proof {
            use_type_invariant(self);
        }
        let mut keys: Vec<String> = Vec::new();
        let mut values: Vec<U> = Vec::new();
        let n: usize = self.entries.keys.len();
        let mut i: usize = 0;
        while i < n
            invariant
                n == self.entries.keys@.len(),
                self.entries.well_formed(),
                i <= n,
                keys@.len() == i,
                values@.len() == i,
                forall|j: int| 0 <= j < i ==> (#[trigger] keys@[j])@ == self.entries.keys@[j]@,
                forall|j: int| 0 <= j < i ==> (#[trigger] values@[j])@ == self.entries.values@[j]@,
            decreases n - i,
        {
            keys.push(self.entries.keys[i].clone());
            values.push(self.entries.values[i].recast());
            i = i + 1;
        }
        let entries = Entries { keys, values };
        proof {
            assert(entries.order() =~= self.order());
            sorted_is_distinct(self.order());
            assert(entries.contents() =~= self.entries.contents());
        }
        StrMap { entries }
    }
}

impl<V: Duplicate> Duplicate for StrMap<V> {
    fn duplicate(&self) -> (r: Self) {
        proof {
            use_type_invariant(self);
        }
        let mut keys: Vec<String> = Vec::new();
        let mut values: Vec<V> = Vec::new();
        let n: usize = self.entries.keys.len();
        let mut i: usize = 0;
        while i < n
            invariant
                n == self.entries.keys@.len(),
                self.entries.well_formed(),
                i <= n,
                keys@.len() == i,
                values@.len() == i,
                forall|j: int| 0 <= j < i ==> (#[trigger] keys@[j])@ == self.entries.keys@[j]@,
                forall|j: int| 0 <= j < i ==> (#[trigger] values@[j])@ == self.entries.values@[j]@,
            decreases n - i,
        {
            keys.push(self.entries.keys[i].clone());
            values.push(self.entries.values[i].duplicate());
            i = i + 1;
        }
        let entries = Entries { keys, values };
        proof {
            assert(entries.order() =~= self.order());
            sorted_is_distinct(self.order());
            assert(entries.contents() =~= self.entries.contents());
        }
        StrMap { entries }
    }
}

} // verus!
