//! A map keyed by names whose entries are kept in increasing name order.
//!
//! Graph resources and graph arguments are looked up by name, and the order of
//! the names decides the bindless slot of each resource and the order in which
//! resources are checked.
use vstd::prelude::*;
use crate::names::{
    lemma_name_lt_irreflexive, lemma_name_lt_transitive, lemma_name_order_equal,
    lemma_name_order_flip, name_lt, same_name, compare_names, strictly_increasing, NameOrder,
};

verus! {

/// Entries sorted by name, each name present at most once.
#[derive(Debug)]
pub struct NameMap<V> {
    entries: Vec<(String, V)>,
}

/// The map described by parallel sequences of names and values.
pub open spec fn map_of<V>(keys: Seq<Seq<char>>, values: Seq<V>) -> Map<Seq<char>, V> {
    Map::new(|k: Seq<char>| keys.contains(k), |k: Seq<char>| values[keys.index_of(k)])
}

/// In a sequence of strictly increasing names a name sits at one index only.
pub proof fn lemma_unique_index(keys: Seq<Seq<char>>, i: int)
    requires
        strictly_increasing(keys),
        0 <= i < keys.len(),
    ensures
        keys.contains(keys[i]),
        keys.index_of(keys[i]) == i,
{
    assert(keys[i] == keys[i]);
    let j = keys.index_of(keys[i]);
    if j < i {
        assert(name_lt(keys[j], keys[i]));
        lemma_name_lt_irreflexive(keys[i]);
    } else if j > i {
        assert(name_lt(keys[i], keys[j]));
        lemma_name_lt_irreflexive(keys[i]);
    }
}

/// The entry at index `i` is what the map holds for its name.
pub proof fn lemma_map_of_at<V>(keys: Seq<Seq<char>>, values: Seq<V>, i: int)
    requires
        strictly_increasing(keys),
        keys.len() == values.len(),
        0 <= i < keys.len(),
    ensures
        map_of(keys, values).contains_key(keys[i]),
        map_of(keys, values)[keys[i]] == values[i],
{
    lemma_unique_index(keys, i);
}

impl<V> NameMap<V> {
    /// The names, in increasing order.
    pub closed spec fn keys(&self) -> Seq<Seq<char>> {
        self.entries@.map_values(|e: (String, V)| e.0@)
    }

    /// The values, in the order of their names.
    pub closed spec fn values(&self) -> Seq<V> {
        self.entries@.map_values(|e: (String, V)| e.1)
    }

    /// Names are strictly increasing, one value per name.
    #[verifier::type_invariant]
    pub open spec fn well_formed(&self) -> bool {
        &&& strictly_increasing(self.keys())
        &&& self.values().len() == self.keys().len()
    }

    /// An empty map.
    pub fn new() -> (m: Self)
        ensures
            m.keys().len() == 0,
            m@ == Map::<Seq<char>, V>::empty(),
    {
        let m = NameMap { entries: Vec::new() };
        assert(m@ =~= Map::<Seq<char>, V>::empty());
        m
    }

    /// The number of entries.
    pub fn len(&self) -> (n: usize)
        ensures
            n == self.keys().len(),
    {
        self.entries.len()
    }

    /// The name at index `i` of the sorted entries.
    pub fn name_at(&self, i: usize) -> (name: &String)
        requires
            i < self.keys().len(),
        ensures
            name@ == self.keys()[i as int],
    {
        &self.entries[i].0
    }

    /// The value at index `i` of the sorted entries.
    pub fn value_at(&self, i: usize) -> (value: &V)
        requires
            i < self.keys().len(),
        ensures
            *value == self.values()[i as int],
    {
        proof {
            use_type_invariant(self);
        }
        &self.entries[i].1
    }

    /// The index of `name` among the sorted entries, if it is present.
    pub fn position(&self, name: &str) -> (r: Option<usize>)
        ensures
            match r {
                Some(i) => i < self.keys().len() && self.keys()[i as int] == name@,
                None => !self.keys().contains(name@),
            },
    {
        let n = self.entries.len();
        let mut i: usize = 0;
        while i < n
            invariant
                n == self.keys().len(),
                i <= n,
                forall|j: int| 0 <= j < i ==> self.keys()[j] != name@,
            decreases n - i,
        {
            if same_name(self.entries[i].0.as_str(), name) {
                return Some(i);
            }
            i = i + 1;
        }
        None
    }

    /// The value stored for `name`.
    pub fn get(&self, name: &str) -> (r: Option<&V>)
        ensures
            match r {
                Some(v) => self@.contains_key(name@) && *v == self@[name@],
                None => !self@.contains_key(name@),
            },
    {
        proof {
            use_type_invariant(self);
        }
        match self.position(name) {
            Some(i) => {
                proof {
                    lemma_map_of_at(self.keys(), self.values(), i as int);
                }
                Some(&self.entries[i].1)
            },
            None => None,
        }
    }

    /// Whether `name` is present.
    pub fn contains(&self, name: &str) -> (r: bool)
        ensures
            r == self@.contains_key(name@),
    {
        self.position(name).is_some()
    }

    /// Stores `value` under `name`, returning the value it replaces.
    pub fn insert(&mut self, name: String, value: V) -> (previous: Option<V>)
        ensures
            final(self)@ == old(self)@.insert(name@, value),
            match previous {
                Some(v) => old(self)@.contains_key(name@) && v == old(self)@[name@],
                None => !old(self)@.contains_key(name@),
            },
            (forall|j: int| 0 <= j < old(self).keys().len() ==> name_lt(#[trigger] old(self).keys()[j], name@))
                ==> final(self).keys() == old(self).keys().push(name@) && final(self).values()
                == old(self).values().push(value),
    {
        proof {
            use_type_invariant(&*self);
        }
        let ghost keys = self.keys();
        let ghost values = self.values();
        let mut entries: Vec<(String, V)> = Vec::new();
        std::mem::swap(&mut entries, &mut self.entries);
        assert(entries@.map_values(|e: (String, V)| e.0@) == keys);
        assert(entries@.map_values(|e: (String, V)| e.1) == values);
        let n = entries.len();
        let mut p: usize = 0;
        let mut found = false;
        while p < n
            invariant_except_break
                n == entries.len(),
                n == keys.len(),
                keys == entries@.map_values(|e: (String, V)| e.0@),
                values == entries@.map_values(|e: (String, V)| e.1),
                p <= n,
                !found,
                forall|j: int| 0 <= j < p ==> name_lt(#[trigger] keys[j], name@),
            ensures
                n == entries.len(),
                n == keys.len(),
                keys == entries@.map_values(|e: (String, V)| e.0@),
                values == entries@.map_values(|e: (String, V)| e.1),
                p <= n,
                forall|j: int| 0 <= j < p ==> name_lt(#[trigger] keys[j], name@),
                found ==> p < n && keys[p as int] == name@,
                !found ==> (p == n || name_lt(name@, keys[p as int])),
            decreases n - p,
        {
            let order = compare_names(entries[p].0.as_str(), name.as_str());
            proof {
                assert(keys[p as int] == entries@[p as int].0@);
                lemma_name_order_equal(keys[p as int], name@);
                lemma_name_order_flip(keys[p as int], name@);
            }
            match order {
                NameOrder::Less => {
                    p = p + 1;
                },
                NameOrder::Equal => {
                    found = true;
                    break ;
                },
                NameOrder::Greater => {
                    break ;
                },
            }
        }
        proof {
            assert forall|j: int| p <= j < n && !found implies name_lt(name@, #[trigger] keys[j]) by {
                {
                    if j > p {
                        assert(name_lt(keys[p as int], keys[j]));
                        lemma_name_lt_transitive(name@, keys[p as int], keys[j]);
                    }
                }
            }
        }
        proof {
            if forall|j: int| 0 <= j < keys.len() ==> name_lt(#[trigger] keys[j], name@) {
                if found {
                    assert(name_lt(keys[p as int], name@));
                    lemma_name_lt_irreflexive(name@);
                } else if p < n {
                    assert(name_lt(keys[p as int], name@));
                    lemma_name_order_flip(keys[p as int], name@);
                }
            }
        }
        if found {
            let old_entry = entries.remove(p);
            let ghost name_view = name@;
            entries.insert(p, (name, value));
            let ghost new_keys = entries@.map_values(|e: (String, V)| e.0@);
            let ghost new_values = entries@.map_values(|e: (String, V)| e.1);
            proof {
                assert(new_keys =~= keys.update(p as int, name_view));
                assert(new_values =~= values.update(p as int, value));
                assert(strictly_increasing(new_keys));
                lemma_map_of_at(keys, values, p as int);
                assert forall|k: Seq<char>| #[trigger] map_of(new_keys, new_values).contains_key(k)
                    == map_of(keys, values).insert(name_view, value).contains_key(k) by {
                    if k != name_view && keys.contains(k) {
                        let j = keys.index_of(k);
                        assert(new_keys[j] == k);
                    }
                    if k != name_view && new_keys.contains(k) {
                        let j = new_keys.index_of(k);
                        assert(keys[j] == k);
                    }
                    if k == name_view {
                        assert(new_keys[p as int] == k);
                    }
                }
                assert forall|k: Seq<char>| #[trigger] map_of(new_keys, new_values).contains_key(k)
                    implies map_of(new_keys, new_values)[k] == map_of(keys, values).insert(
                    name_view,
                    value,
                )[k] by {
                    let j = new_keys.index_of(k);
                    lemma_map_of_at(new_keys, new_values, j);
                    if k != name_view {
                        assert(keys[j] == k);
                        lemma_map_of_at(keys, values, j);
                    } else {
                        lemma_map_of_at(new_keys, new_values, p as int);
                    }
                }
                assert(map_of(new_keys, new_values) =~= map_of(keys, values).insert(
                    name_view,
                    value,
                ));
            }
            self.entries = entries;
            Some(old_entry.1)
        } else {
            let ghost name_view = name@;
            entries.insert(p, (name, value));
            let ghost new_keys = entries@.map_values(|e: (String, V)| e.0@);
            let ghost new_values = entries@.map_values(|e: (String, V)| e.1);
            proof {
                assert(new_keys =~= keys.insert(p as int, name_view));
                assert(new_values =~= values.insert(p as int, value));
                assert forall|i: int, j: int| 0 <= i < j < new_keys.len() implies name_lt(
                    #[trigger] new_keys[i],
                    #[trigger] new_keys[j],
                ) by {
                    if j < p {
                        assert(name_lt(keys[i], keys[j]));
                    } else if j == p {
                        assert(name_lt(keys[i], name_view));
                    } else if i < p {
                        assert(name_lt(keys[i], keys[j - 1]));
                    } else if i == p {
                        assert(name_lt(name_view, keys[j - 1]));
                    } else {
                        assert(name_lt(keys[i - 1], keys[j - 1]));
                    }
                }
                assert(!keys.contains(name_view)) by {
                    if keys.contains(name_view) {
                        let j = keys.index_of(name_view);
                        if j < p {
                            assert(name_lt(keys[j], name_view));
                        } else {
                            assert(name_lt(name_view, keys[j]));
                        }
                        lemma_name_lt_irreflexive(name_view);
                    }
                }
                assert forall|k: Seq<char>| #[trigger] map_of(new_keys, new_values).contains_key(k)
                    == map_of(keys, values).insert(name_view, value).contains_key(k) by {
                    if k != name_view && keys.contains(k) {
                        let j = keys.index_of(k);
                        if j < p {
                            assert(new_keys[j] == k);
                        } else {
                            assert(new_keys[j + 1] == k);
                        }
                    }
                    if k != name_view && new_keys.contains(k) {
                        let j = new_keys.index_of(k);
                        if j < p {
                            assert(keys[j] == k);
                        } else {
                            assert(keys[j - 1] == k);
                        }
                    }
                    if k == name_view {
                        assert(new_keys[p as int] == k);
                    }
                }
                assert forall|k: Seq<char>| #[trigger] map_of(new_keys, new_values).contains_key(k)
                    implies map_of(new_keys, new_values)[k] == map_of(keys, values).insert(
                    name_view,
                    value,
                )[k] by {
                    let j = new_keys.index_of(k);
                    lemma_map_of_at(new_keys, new_values, j);
                    if k != name_view {
                        if j < p {
                            assert(keys[j] == k);
                            lemma_map_of_at(keys, values, j);
                        } else {
                            assert(keys[j - 1] == k);
                            lemma_map_of_at(keys, values, j - 1);
                        }
                    }
                }
                assert(map_of(new_keys, new_values) =~= map_of(keys, values).insert(
                    name_view,
                    value,
                ));
            }
            self.entries = entries;
            None
        }
    }
}

impl<V> View for NameMap<V> {
    type V = Map<Seq<char>, V>;

    open spec fn view(&self) -> Map<Seq<char>, V> {
        map_of(self.keys(), self.values())
    }
}

} // verus!
