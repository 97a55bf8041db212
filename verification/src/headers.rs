//! A map of header names to values, as the HTTP code of this crate uses it.
//!
//! The map keeps its entries in a `Vec` whose names are pairwise distinct and
//! is seen, in contracts, as a `Map` from name to value.
use vstd::prelude::*;
use crate::text::pairs_view;

verus! {

pub type Pairs = Seq<(Seq<char>, Seq<char>)>;

/// The map that a list of pairs spells; a later pair overrides an earlier one.
pub open spec fn map_of<V>(s: Seq<(Seq<char>, V)>) -> Map<Seq<char>, V>
    decreases s.len(),
{
    if s.len() == 0 {
        Map::empty()
    } else {
        map_of(s.drop_last()).insert(s.last().0, s.last().1)
    }
}

pub open spec fn distinct_keys<V>(s: Seq<(Seq<char>, V)>) -> bool {
    forall|i: int, j: int| 0 <= i < j < s.len() ==> s[i].0 != s[j].0
}

pub proof fn lemma_map_of_push<V>(s: Seq<(Seq<char>, V)>, p: (Seq<char>, V))
    ensures
        map_of(s.push(p)) == map_of(s).insert(p.0, p.1),
{
    assert(s.push(p).drop_last() =~= s);
}

/// A name that no pair carries is not in the map.
pub proof fn lemma_map_of_absent<V>(s: Seq<(Seq<char>, V)>, k: Seq<char>)
    requires
        forall|i: int| 0 <= i < s.len() ==> s[i].0 != k,
    ensures
        !map_of(s).contains_key(k),
    decreases s.len(),
{
    if s.len() > 0 {
        lemma_map_of_absent(s.drop_last(), k);
    }
}

/// With distinct names, the map gives each pair's value for its name.
pub proof fn lemma_map_of_index<V>(s: Seq<(Seq<char>, V)>, i: int)
    requires
        distinct_keys(s),
        0 <= i < s.len(),
    ensures
        map_of(s).contains_key(s[i].0),
        map_of(s)[s[i].0] == s[i].1,
    decreases s.len(),
{
    if i < s.len() - 1 {
        lemma_map_of_index(s.drop_last(), i);
    }
}

/// Replacing the value of a pair is an `insert` into the map.
pub proof fn lemma_map_of_update<V>(s: Seq<(Seq<char>, V)>, i: int, v: V)
    requires
        distinct_keys(s),
        0 <= i < s.len(),
    ensures
        map_of(s.update(i, (s[i].0, v))) == map_of(s).insert(s[i].0, v),
    decreases s.len(),
{
    let t = s.update(i, (s[i].0, v));
    if i == s.len() - 1 {
        assert(t.drop_last() =~= s.drop_last());
        assert(map_of(t) =~= map_of(s).insert(s[i].0, v));
    } else {
        lemma_map_of_update(s.drop_last(), i, v);
        assert(t.drop_last() =~= s.drop_last().update(i, (s[i].0, v)));
        assert(map_of(t) =~= map_of(s).insert(s[i].0, v));
    }
}

/// Taking out a pair is a `remove` from the map.
pub proof fn lemma_map_of_remove<V>(s: Seq<(Seq<char>, V)>, i: int)
    requires
        distinct_keys(s),
        0 <= i < s.len(),
    ensures
        map_of(s.remove(i)) == map_of(s).remove(s[i].0),
        distinct_keys(s.remove(i)),
    decreases s.len(),
{
    let t = s.remove(i);
    if i == s.len() - 1 {
        assert(t =~= s.drop_last());
        assert forall|j: int| 0 <= j < t.len() implies t[j].0 != s[i].0 by {
            assert(t[j] == s[j]);
        }
        lemma_map_of_absent(t, s[i].0);
        assert(map_of(t) =~= map_of(s).remove(s[i].0));
    } else {
        lemma_map_of_remove(s.drop_last(), i);
        assert(t.drop_last() =~= s.drop_last().remove(i));
        assert(t.last() == s.last());
        assert(map_of(t) =~= map_of(s).remove(s[i].0));
    }
}

/// With distinct names there are as many entries in the map as pairs.
pub proof fn lemma_map_of_len<V>(s: Seq<(Seq<char>, V)>)
    requires
        distinct_keys(s),
    ensures
        map_of(s).dom().finite(),
        map_of(s).dom().len() == s.len(),
    decreases s.len(),
{
    if s.len() > 0 {
        let t = s.drop_last();
        lemma_map_of_len(t);
        assert forall|j: int| 0 <= j < t.len() implies t[j].0 != s.last().0 by {
            assert(t[j] == s[j]);
        }
        lemma_map_of_absent(t, s.last().0);
    }
}

/// Header names and values; each name occurs once.
pub struct HeaderMap {
    entries: Vec<(String, String)>,
}

impl View for HeaderMap {
    type V = Map<Seq<char>, Seq<char>>;

    closed spec fn view(&self) -> Map<Seq<char>, Seq<char>> {
        map_of(pairs_view(self.entries@))
    }
}

impl HeaderMap {
    #[verifier::type_invariant]
    spec fn names_distinct(&self) -> bool {
        distinct_keys(pairs_view(self.entries@))
    }

    /// An empty map.
    pub fn new() -> (r: Self)
        ensures
            r@ == Map::<Seq<char>, Seq<char>>::empty(),
    {
        let r = HeaderMap { entries: Vec::new() };
        assert(pairs_view(r.entries@) =~= Seq::<(Seq<char>, Seq<char>)>::empty());
        r
    }

    /// Position of the entry named `name`.
    fn position(&self, name: &String) -> (r: Option<usize>)
        ensures
            match r {
                Some(i) => i < self.entries@.len() && self.entries@[i as int].0@ == name@,
                None => forall|i: int|
                    0 <= i < self.entries@.len() ==> self.entries@[i].0@ != name@,
            },
    {
        let mut i: usize = 0;
        while i < self.entries.len()
            invariant
                i <= self.entries@.len(),
                forall|j: int| 0 <= j < i ==> self.entries@[j].0@ != name@,
            decreases self.entries@.len() - i,
        {
            if self.entries[i].0 == *name {
                return Some(i);
            }
            i += 1;
        }
        None
    }

    /// The value stored for `name`.
    pub fn get(&self, name: &str) -> (r: Option<&String>)
        ensures
            match r {
                Some(v) => self@.contains_key(name@) && self@[name@] == v@,
                None => !self@.contains_key(name@),
            },
    {
        proof {
            use_type_invariant(self);
        }
        let key = name.to_owned();
        let ghost s = pairs_view(self.entries@);
        match self.position(&key) {
            Some(i) => {
                proof {
                    assert(s[i as int].0 == name@);
                    lemma_map_of_index(s, i as int);
                }
                Some(&self.entries[i].1)
            },
            None => {
                proof {
                    assert forall|j: int| 0 <= j < s.len() implies s[j].0 != name@ by {
                        assert(s[j].0 == self.entries@[j].0@);
                    }
                    lemma_map_of_absent(s, name@);
                }
                None
            },
        }
    }

    /// Stores `value` under `name`, replacing what was there (`HashMap::insert`).
    pub fn insert(&mut self, name: String, value: String)
        ensures
            final(self)@ == old(self)@.insert(name@, value@),
    {
        proof {
            use_type_invariant(&*self);
        }
        let ghost s = pairs_view(self.entries@);
        match self.position(&name) {
            Some(i) => {
                proof {
                    lemma_map_of_update(s, i as int, value@);
                }
                let mut entries: Vec<(String, String)> = Vec::new();
                std::mem::swap(&mut entries, &mut self.entries);
                let k = entries[i].0.clone();
                entries.set(i, (k, value));
                assert(pairs_view(entries@) =~= s.update(i as int, (s[i as int].0, value@)));
                self.entries = entries;
            },
            None => {
                let mut entries: Vec<(String, String)> = Vec::new();
                std::mem::swap(&mut entries, &mut self.entries);
                entries.push((name, value));
                proof {
                    assert(pairs_view(entries@) =~= s.push((name@, value@)));
                    lemma_map_of_push(s, (name@, value@));
                }
                self.entries = entries;
            },
        }
    }

    /// Stores `value` under `name` only where `name` is absent
    /// (`entry(name).or_insert(value)`).
    pub fn insert_default(&mut self, name: String, value: String)
        ensures
            final(self)@ == (if old(self)@.contains_key(name@) {
                old(self)@
            } else {
                old(self)@.insert(name@, value@)
            }),
    {
        proof {
            use_type_invariant(&*self);
        }
        let present = self.get(name.as_str()).is_some();
        if !present {
            self.insert(name, value);
        }
    }

    /// The entries, each name once, in the order they were first stored.
    pub fn entries(&self) -> (r: &[(String, String)])
        ensures
            map_of(pairs_view(r@)) == self@,
            distinct_keys(pairs_view(r@)),
    {
        proof {
            use_type_invariant(self);
        }
        self.entries.as_slice()
    }
}

} // verus!
