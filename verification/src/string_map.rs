//! A small map keyed by text, kept in insertion order.

use vstd::prelude::*;
use vstd::string::*;
use crate::text::str_eq;

verus! {

/// The map that a list of keys and a list of values stand for, later
/// entries overriding earlier ones.
pub open spec fn entries_map<V>(keys: Seq<String>, values: Seq<V>) -> Map<Seq<char>, V>
    decreases keys.len(),
{
    if keys.len() == 0 || values.len() != keys.len() {
        Map::empty()
    } else {
        entries_map(keys.drop_last(), values.drop_last()).insert(keys.last()@, values.last())
    }
}

/// No two keys hold the same text.
pub open spec fn distinct_keys(keys: Seq<String>) -> bool {
    forall|i: int, j: int| 0 <= i < j < keys.len() ==> keys[i]@ != keys[j]@
}

pub proof fn lemma_entries_domain<V>(keys: Seq<String>, values: Seq<V>, k: Seq<char>)
    requires
        keys.len() == values.len(),
    ensures
        entries_map(keys, values).contains_key(k) <==> exists|i: int|
            0 <= i < keys.len() && #[trigger] keys[i]@ == k,
    decreases keys.len(),
{
    if keys.len() > 0 {
        lemma_entries_domain(keys.drop_last(), values.drop_last(), k);
        if entries_map(keys, values).contains_key(k) {
            if keys.last()@ == k {
                assert(keys[keys.len() - 1]@ == k);
            } else {
                let i = choose|i: int|
                    0 <= i < keys.drop_last().len() && #[trigger] keys.drop_last()[i]@ == k;
                assert(keys[i]@ == k);
            }
        }
        if exists|i: int| 0 <= i < keys.len() && #[trigger] keys[i]@ == k {
            let i = choose|i: int| 0 <= i < keys.len() && #[trigger] keys[i]@ == k;
            if i < keys.len() - 1 {
                assert(keys.drop_last()[i]@ == k);
            }
        }
    }
}

pub proof fn lemma_entries_lookup<V>(keys: Seq<String>, values: Seq<V>, i: int)
    requires
        keys.len() == values.len(),
        distinct_keys(keys),
        0 <= i < keys.len(),
    ensures
        entries_map(keys, values).contains_key(keys[i]@),
        entries_map(keys, values)[keys[i]@] == values[i],
    decreases keys.len(),
{
    if i < keys.len() - 1 {
        assert(distinct_keys(keys.drop_last())) by {
            assert forall|a: int, b: int| 0 <= a < b < keys.drop_last().len() implies keys.drop_last()[a]@
                != keys.drop_last()[b]@ by {
                assert(keys[a]@ != keys[b]@);
            }
        }
        lemma_entries_lookup(keys.drop_last(), values.drop_last(), i);
        assert(keys.drop_last()[i] == keys[i]);
        assert(keys[i]@ != keys[keys.len() - 1]@);
    }
}

pub proof fn lemma_entries_update<V>(keys: Seq<String>, values: Seq<V>, i: int, v: V)
    requires
        keys.len() == values.len(),
        distinct_keys(keys),
        0 <= i < keys.len(),
    ensures
        entries_map(keys, values.update(i, v)) == entries_map(keys, values).insert(keys[i]@, v),
    decreases keys.len(),
{
    let n = keys.len() - 1;
    if i < n {
        assert(distinct_keys(keys.drop_last())) by {
            assert forall|a: int, b: int| 0 <= a < b < keys.drop_last().len() implies keys.drop_last()[a]@
                != keys.drop_last()[b]@ by {
                assert(keys[a]@ != keys[b]@);
            }
        }
        lemma_entries_update(keys.drop_last(), values.drop_last(), i, v);
        assert(values.update(i, v).drop_last() == values.drop_last().update(i, v));
        assert(keys.drop_last()[i] == keys[i]);
        assert(keys[i]@ != keys[n]@);
        assert(entries_map(keys, values.update(i, v)) =~= entries_map(keys, values).insert(
            keys[i]@,
            v,
        ));
    } else {
        assert(values.update(i, v).drop_last() == values.drop_last());
        assert(entries_map(keys, values.update(i, v)) =~= entries_map(keys, values).insert(
            keys[i]@,
            v,
        ));
    }
}

/// A map from text to `V`.
#[derive(Debug)]
pub struct StringMap<V> {
    keys: Vec<String>,
    values: Vec<V>,
}

impl<V> View for StringMap<V> {
    type V = Map<Seq<char>, V>;

    closed spec fn view(&self) -> Map<Seq<char>, V> {
        entries_map(self.keys@, self.values@)
    }
}

impl<V: Clone> Clone for StringMap<V> {
    /// A map with the same keys in the same order, each value a clone of
    /// the value it stands for.
    fn clone(&self) -> (r: Self)
        ensures
            r.key_order() == self.key_order(),
            r@.dom() == self@.dom(),
            forall|k: Seq<char>| self@.contains_key(k) ==> cloned(self@[k], #[trigger] r@[k]),
    {
        proof {
            use_type_invariant(self);
        }
        let keys = self.keys.clone();
        let values = self.values.clone();
        assert(keys@ =~= self.keys@);
        let r = StringMap { keys, values };
        proof {
            assert(r.key_order() =~= self.key_order());
            assert forall|k: Seq<char>| r@.contains_key(k) <==> self@.contains_key(k) by {
                lemma_entries_domain(r.keys@, r.values@, k);
                lemma_entries_domain(self.keys@, self.values@, k);
            }
            assert(r@.dom() =~= self@.dom());
            assert forall|k: Seq<char>| self@.contains_key(k) implies cloned(
                self@[k],
                #[trigger] r@[k],
            ) by {
                lemma_entries_domain(self.keys@, self.values@, k);
                let i = choose|i: int| 0 <= i < self.keys@.len() && #[trigger] self.keys@[i]@ == k;
                lemma_entries_lookup(self.keys@, self.values@, i);
                lemma_entries_lookup(r.keys@, r.values@, i);
            }
        }
        r
    }
}

impl<V> StringMap<V> {
    #[verifier::type_invariant]
    spec fn well_formed(&self) -> bool {
        &&& self.keys.len() == self.values.len()
        &&& distinct_keys(self.keys@)
    }

    /// The keys in the order in which they were first inserted.
    pub closed spec fn key_order(&self) -> Seq<Seq<char>> {
        Seq::new(self.keys@.len(), |i: int| self.keys@[i]@)
    }

    pub fn new() -> (m: Self)
        ensures
            m@ == Map::<Seq<char>, V>::empty(),
            m.key_order() == Seq::<Seq<char>>::empty(),
    {
        let m = StringMap { keys: Vec::new(), values: Vec::new() };
        assert(m.key_order() =~= Seq::<Seq<char>>::empty());
        m
    }

    /// The number of entries. The keys in `key_order` are exactly the map's
    /// keys, each once.
    pub fn len(&self) -> (n: usize)
        ensures
            n == self.key_order().len(),
            self.key_order().no_duplicates(),
            forall|k: Seq<char>| self@.contains_key(k) <==> self.key_order().contains(k),
    {
        proof {
            use_type_invariant(self);
            assert forall|k: Seq<char>| self@.contains_key(k) <==> self.key_order().contains(
                k,
            ) by {
                lemma_entries_domain(self.keys@, self.values@, k);
                if self@.contains_key(k) {
                    let i = choose|i: int|
                        0 <= i < self.keys@.len() && #[trigger] self.keys@[i]@ == k;
                    assert(self.key_order()[i] == k);
                }
                if self.key_order().contains(k) {
                    let i = choose|i: int|
                        0 <= i < self.key_order().len() && self.key_order()[i] == k;
                    assert(self.keys@[i]@ == k);
                }
            }
        }
        self.keys.len()
    }

    pub fn is_empty(&self) -> (b: bool)
        ensures
            b == (self.key_order().len() == 0),
    {
        self.keys.len() == 0
    }

    /// The text of the `i`-th key.
    pub fn key_at(&self, i: usize) -> (k: &String)
        requires
            i < self.key_order().len(),
        ensures
            k@ == self.key_order()[i as int],
            self@.contains_key(k@),
    {
        proof {
            use_type_invariant(self);
            lemma_entries_lookup(self.keys@, self.values@, i as int);
        }
        &self.keys[i]
    }

    /// The value under the `i`-th key.
    pub fn value_at(&self, i: usize) -> (v: &V)
        requires
            i < self.key_order().len(),
        ensures
            self@.contains_key(self.key_order()[i as int]),
            *v == self@[self.key_order()[i as int]],
    {
        proof {
            use_type_invariant(self);
            lemma_entries_lookup(self.keys@, self.values@, i as int);
        }
        &self.values[i]
    }

    fn position(&self, key: &str) -> (r: Option<usize>)
        ensures
            match r {
                Some(i) => i < self.keys.len() && self.keys@[i as int]@ == key@,
                None => forall|j: int| 0 <= j < self.keys.len() ==> self.keys@[j]@ != key@,
            },
    {
        let n = self.keys.len();
        let mut i: usize = 0;
        while i < n
            invariant
                n == self.keys.len(),
                i <= n,
                forall|j: int| 0 <= j < i ==> self.keys@[j]@ != key@,
            decreases n - i,
        {
            if str_eq(self.keys[i].as_str(), key) {
                return Some(i);
            }
            i += 1;
        }
        None
    }

    pub fn contains_key(&self, key: &str) -> (b: bool)
        ensures
            b == self@.contains_key(key@),
    {
        proof {
            use_type_invariant(self);
            lemma_entries_domain(self.keys@, self.values@, key@);
        }
        self.position(key).is_some()
    }

    pub fn get(&self, key: &str) -> (r: Option<&V>)
        ensures
            match r {
                Some(v) => self@.contains_key(key@) && *v == self@[key@],
                None => !self@.contains_key(key@),
            },
    {
        proof {
            use_type_invariant(self);
            lemma_entries_domain(self.keys@, self.values@, key@);
        }
        match self.position(key) {
            Some(i) => {
                proof {
                    lemma_entries_lookup(self.keys@, self.values@, i as int);
                }
                Some(&self.values[i])
            },
            None => None,
        }
    }

    /// Where `key` stands in the order of the keys.
    pub fn index_of(&self, key: &str) -> (r: Option<usize>)
        ensures
            match r {
                Some(i) => i < self.key_order().len() && self.key_order()[i as int] == key@
                    && self@.contains_key(key@),
                None => !self@.contains_key(key@),
            },
    {
        proof {
            use_type_invariant(self);
            lemma_entries_domain(self.keys@, self.values@, key@);
        }
        self.position(key)
    }

    /// Puts `value` in the place of the value under the `i`-th key and hands
    /// back what was there.
    pub fn replace_at(&mut self, i: usize, value: V) -> (was: V)
        requires
            i < old(self).key_order().len(),
        ensures
            was == old(self)@[old(self).key_order()[i as int]],
            final(self)@ == old(self)@.insert(old(self).key_order()[i as int], value),
            final(self).key_order() == old(self).key_order(),
    {
        proof {
            use_type_invariant(&*self);
            lemma_entries_lookup(self.keys@, self.values@, i as int);
            lemma_entries_update(self.keys@, self.values@, i as int, value);
        }
        let mut taken = StringMap::new();
        core::mem::swap(self, &mut taken);
        let StringMap { keys, mut values } = taken;
        let ghost before = values@;
        values.push(value);
        let was = values.swap_remove(i);
        assert(values@ =~= before.update(i as int, value));
        *self = StringMap { keys, values };
        assert(self.key_order() =~= old(self).key_order());
        was
    }

    /// Puts `value` under `key`, in place of what was there.
    pub fn insert(&mut self, key: String, value: V)
        ensures
            final(self)@ == old(self)@.insert(key@, value),
            old(self)@.contains_key(key@) ==> final(self).key_order() == old(self).key_order(),
            !old(self)@.contains_key(key@) ==> final(self).key_order() == old(self).key_order().push(
                key@,
            ),
    {
        proof {
            use_type_invariant(&*self);
            lemma_entries_domain(self.keys@, self.values@, key@);
        }
        let found = self.position(key.as_str());
        let mut taken = StringMap::new();
        core::mem::swap(self, &mut taken);
        let StringMap { mut keys, mut values } = taken;
        match found {
            Some(i) => {
                proof {
                    lemma_entries_update(keys@, values@, i as int, value);
                }
                values.set(i, value);
            },
            None => {
                let ghost old_keys = keys@;
                let ghost old_values = values@;
                keys.push(key);
                values.push(value);
                proof {
                    assert(keys@.drop_last() == old_keys);
                    assert(values@.drop_last() == old_values);
                }
            },
        }
        *self = StringMap { keys, values };
        proof {
            if found is None {
                assert(self.key_order() =~= old(self).key_order().push(key@));
            } else {
                assert(self.key_order() =~= old(self).key_order());
            }
        }
    }

    pub fn clear(&mut self)
        ensures
            final(self)@ == Map::<Seq<char>, V>::empty(),
            final(self).key_order() == Seq::<Seq<char>>::empty(),
    {
        *self = StringMap::new();
    }
}

} // verus!
