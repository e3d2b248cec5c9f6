//! A list of members with distinct string keys, read as a map: the members
//! of a JSON object as the configuration migration sees them.

use vstd::prelude::*;

use crate::text::chars_equal;

verus! {

/// The map a list of keyed members denotes (a later member overrides an
/// earlier one with the same key).
pub open spec fn keyed_map<V>(s: Seq<(Seq<char>, V)>) -> Map<Seq<char>, V>
    decreases s.len(),
{
    if s.len() == 0 {
        Map::empty()
    } else {
        keyed_map(s.drop_last()).insert(s.last().0, s.last().1)
    }
}

/// No key occurs twice.
pub open spec fn unique_keys<V>(s: Seq<(Seq<char>, V)>) -> bool {
    forall|i: int, j: int| 0 <= i < j < s.len() ==> (#[trigger] s[i]).0 != (#[trigger] s[j]).0
}

/// With distinct keys, every member is in the map and the map holds nothing
/// else.
pub proof fn lemma_keyed_map<V>(s: Seq<(Seq<char>, V)>)
    requires
        unique_keys(s),
    ensures
        forall|i: int| 0 <= i < s.len() ==> #[trigger] keyed_map(s).contains_key(s[i].0)
            && keyed_map(s)[s[i].0] == s[i].1,
        forall|k: Seq<char>| #[trigger]
            keyed_map(s).contains_key(k) ==> exists|i: int| 0 <= i < s.len() && s[i].0 == k,
    decreases s.len(),
{
    if s.len() > 0 {
        let t = s.drop_last();
        assert(unique_keys(t)) by {
            assert forall|i: int, j: int| 0 <= i < j < t.len() implies (#[trigger] t[i]).0 != (
            #[trigger] t[j]).0 by {
                assert(t[i] == s[i] && t[j] == s[j]);
            }
        }
        lemma_keyed_map(t);
        assert forall|i: int| 0 <= i < s.len() implies #[trigger] keyed_map(s).contains_key(s[i].0)
            && keyed_map(s)[s[i].0] == s[i].1 by {
            if i < s.len() - 1 {
                assert(t[i] == s[i]);
                assert(keyed_map(t).contains_key(t[i].0));
                assert(s[i].0 != s[s.len() - 1].0);
            }
        }
        assert forall|k: Seq<char>| #[trigger] keyed_map(s).contains_key(k) implies exists|i: int|
            0 <= i < s.len() && s[i].0 == k by {
            if k != s.last().0 {
                assert(keyed_map(t).contains_key(k));
                let i = choose|i: int| 0 <= i < t.len() && t[i].0 == k;
                assert(s[i] == t[i]);
            } else {
                assert(s[s.len() - 1].0 == k);
            }
        }
    }
}

proof fn lemma_keyed_map_update<V>(s: Seq<(Seq<char>, V)>, i: int, v: V)
    requires
        0 <= i < s.len(),
        forall|j: int| 0 <= j < s.len() && j != i ==> s[j].0 != s[i].0,
    ensures
        keyed_map(s.update(i, (s[i].0, v))) == keyed_map(s).insert(s[i].0, v),
    decreases s.len(),
{
    let u = s.update(i, (s[i].0, v));
    let t = s.drop_last();
    if i == s.len() - 1 {
        assert(u.drop_last() =~= t);
        assert(keyed_map(u) =~= keyed_map(s).insert(s[i].0, v));
    } else {
        assert(u.drop_last() =~= t.update(i, (t[i].0, v)));
        lemma_keyed_map_update(t, i, v);
        assert(s.last().0 != s[i].0);
        assert(keyed_map(u) =~= keyed_map(s).insert(s[i].0, v));
    }
}

proof fn lemma_keyed_map_remove<V>(s: Seq<(Seq<char>, V)>, i: int)
    requires
        0 <= i < s.len(),
        unique_keys(s),
    ensures
        keyed_map(s.remove(i)) == keyed_map(s).remove(s[i].0),
    decreases s.len(),
{
    let u = s.remove(i);
    let t = s.drop_last();
    if i == s.len() - 1 {
        assert(u =~= t);
        lemma_keyed_map(s);
        assert(unique_keys(t)) by {
            assert forall|a: int, b: int| 0 <= a < b < t.len() implies (#[trigger] t[a]).0 != (
            #[trigger] t[b]).0 by {
                assert(t[a] == s[a] && t[b] == s[b]);
            }
        }
        lemma_keyed_map(t);
        assert forall|k: Seq<char>| keyed_map(t).contains_key(k) implies k != s[i].0 by {
            let j = choose|j: int| 0 <= j < t.len() && t[j].0 == k;
            assert(s[j] == t[j]);
        }
        assert(keyed_map(u) =~= keyed_map(s).remove(s[i].0));
    } else {
        assert(u.drop_last() =~= t.remove(i));
        assert(u.last() == s.last());
        assert(unique_keys(t)) by {
            assert forall|a: int, b: int| 0 <= a < b < t.len() implies (#[trigger] t[a]).0 != (
            #[trigger] t[b]).0 by {
                assert(t[a] == s[a] && t[b] == s[b]);
            }
        }
        lemma_keyed_map_remove(t, i);
        assert(t[i] == s[i]);
        assert(s.last().0 != s[i].0);
        assert(keyed_map(u) =~= keyed_map(s).remove(s[i].0));
    }
}

/// Members with distinct string keys.
pub struct KeyedList<V> {
    items: Vec<(String, V)>,
}

impl<V> KeyedList<V> {
    /// The members, keys by their characters.
    pub closed spec fn members(&self) -> Seq<(Seq<char>, V)> {
        self.items@.map_values(|p: (String, V)| (p.0@, p.1))
    }

    #[verifier::type_invariant]
    spec fn keys_distinct(&self) -> bool {
        unique_keys(self.members())
    }

    /// The map the members denote.
    pub closed spec fn map(&self) -> Map<Seq<char>, V> {
        keyed_map(self.members())
    }

    /// No members.
    pub fn new() -> (r: Self)
        ensures
            r.map() == Map::<Seq<char>, V>::empty(),
    {
        let r = KeyedList { items: Vec::new() };
        assert(r.members() =~= Seq::empty());
        r
    }

    fn position(&self, key: &str) -> (r: Option<usize>)
        ensures
            match r {
                Some(i) => i < self.members().len() && self.members()[i as int].0 == key@,
                None => forall|i: int| 0 <= i < self.members().len() ==> self.members()[i].0 != key@,
            },
    {
        let mut i: usize = 0;
        while i < self.items.len()
            invariant
                i <= self.items@.len(),
                self.members().len() == self.items@.len(),
                forall|j: int| 0 <= j < i ==> self.members()[j].0 != key@,
            decreases self.items@.len() - i,
        {
            if chars_equal(self.items[i].0.as_str(), key) {
                return Some(i);
            }
            i = i + 1;
        }
        None
    }

    /// The number of members.
    pub fn len(&self) -> (n: usize)
        ensures
            n == self.map().dom().len(),
    {
        proof {
            use_type_invariant(self);
            lemma_keyed_map(self.members());
            lemma_keyed_len(self.members());
        }
        self.items.len()
    }

    /// The value under `key`, if any.
    pub fn get(&self, key: &str) -> (r: Option<&V>)
        ensures
            match r {
                Some(v) => self.map().contains_key(key@) && *v == self.map()[key@],
                None => !self.map().contains_key(key@),
            },
    {
        proof {
            use_type_invariant(self);
            lemma_keyed_map(self.members());
        }
        match self.position(key) {
            Some(i) => {
                assert(self.map().contains_key(self.members()[i as int].0));
                Some(&self.items[i].1)
            },
            None => None,
        }
    }

    /// Sets the value under `key`, replacing an earlier one.
    pub fn insert(&mut self, key: String, value: V)
        ensures
            final(self).map() == old(self).map().insert(key@, value),
    {
        proof {
            use_type_invariant(&*self);
        }
        let ghost before = self.members();
        let mut items: Vec<(String, V)> = Vec::new();
        std::mem::swap(&mut items, &mut self.items);
        let mut i: usize = 0;
        while i < items.len() && !chars_equal(items[i].0.as_str(), key.as_str())
            invariant
                i <= items@.len(),
                before == items@.map_values(|p: (String, V)| (p.0@, p.1)),
                forall|j: int| 0 <= j < i ==> before[j].0 != key@,
            decreases items@.len() - i,
        {
            i = i + 1;
        }
        if i < items.len() {
            proof {
                assert(before[i as int].0 == key@);
                assert forall|j: int| 0 <= j < before.len() && j != i implies before[j].0
                    != before[i as int].0 by {
                    if j < i {
                        assert((before[j]).0 != (before[i as int]).0);
                    } else {
                        assert((before[i as int]).0 != (before[j]).0);
                    }
                }
                lemma_keyed_map_update(before, i as int, value);
            }
            items.set(i, (key, value));
            let ghost after = items@.map_values(|p: (String, V)| (p.0@, p.1));
            assert(after =~= before.update(i as int, (before[i as int].0, value)));
            assert(unique_keys(after)) by {
                assert forall|a: int, b: int| 0 <= a < b < after.len() implies (#[trigger] after[a]).0
                    != (#[trigger] after[b]).0 by {
                    assert(after[a].0 == before[a].0 && after[b].0 == before[b].0);
                }
            }
            self.items = items;
        } else {
            let ghost k = key@;
            items.push((key, value));
            let ghost after = items@.map_values(|p: (String, V)| (p.0@, p.1));
            assert(after =~= before.push((k, value)));
            assert(after.drop_last() =~= before);
            assert(unique_keys(after)) by {
                assert forall|a: int, b: int| 0 <= a < b < after.len() implies (#[trigger] after[a]).0
                    != (#[trigger] after[b]).0 by {
                    if b == after.len() - 1 {
                        assert(after[a] == before[a]);
                    } else {
                        assert(after[a] == before[a] && after[b] == before[b]);
                    }
                }
            }
            self.items = items;
        }
    }

    /// Removes and returns the value under `key`, if any.
    pub fn take(&mut self, key: &str) -> (r: Option<V>)
        ensures
            final(self).map() == old(self).map().remove(key@),
            match r {
                Some(v) => old(self).map().contains_key(key@) && v == old(self).map()[key@],
                None => !old(self).map().contains_key(key@),
            },
    {
        proof {
            use_type_invariant(&*self);
            lemma_keyed_map(self.members());
        }
        match self.position(key) {
            Some(i) => {
                let ghost before = self.members();
                proof {
                    lemma_keyed_map_remove(before, i as int);
                    assert(self.map().contains_key(before[i as int].0));
                }
                let mut items: Vec<(String, V)> = Vec::new();
                std::mem::swap(&mut items, &mut self.items);
                let (_, value) = items.remove(i);
                let ghost after = items@.map_values(|p: (String, V)| (p.0@, p.1));
                assert(after =~= before.remove(i as int));
                assert(unique_keys(after)) by {
                    assert forall|a: int, b: int| 0 <= a < b < after.len() implies (
                    #[trigger] after[a]).0 != (#[trigger] after[b]).0 by {
                        if a < i && b < i {
                            assert(after[a] == before[a] && after[b] == before[b]);
                        } else if a < i {
                            assert(after[a] == before[a] && after[b] == before[b + 1]);
                        } else {
                            assert(after[a] == before[a + 1] && after[b] == before[b + 1]);
                        }
                    }
                }
                self.items = items;
                Some(value)
            },
            None => {
                proof {
                    assert(!old(self).map().contains_key(key@)) by {
                        if old(self).map().contains_key(key@) {
                            let j = choose|j: int| 0 <= j < old(self).members().len() && old(self).members()[j].0 == key@;
                        }
                    }
                    assert(old(self).map().remove(key@) =~= old(self).map());
                }
                None
            },
        }
    }

    /// The members as a list of key and value.
    pub fn into_members(self) -> (items: Vec<(String, V)>)
        ensures
            keyed_map(items@.map_values(|p: (String, V)| (p.0@, p.1))) == self.map(),
            unique_keys(items@.map_values(|p: (String, V)| (p.0@, p.1))),
    {
        proof {
            use_type_invariant(&self);
        }
        self.items
    }
}

proof fn lemma_keyed_len<V>(s: Seq<(Seq<char>, V)>)
    requires
        unique_keys(s),
    ensures
        keyed_map(s).dom().len() == s.len(),
        keyed_map(s).dom().finite(),
    decreases s.len(),
{
    if s.len() > 0 {
        let t = s.drop_last();
        assert(unique_keys(t)) by {
            assert forall|a: int, b: int| 0 <= a < b < t.len() implies (#[trigger] t[a]).0 != (
            #[trigger] t[b]).0 by {
                assert(t[a] == s[a] && t[b] == s[b]);
            }
        }
        lemma_keyed_len(t);
        lemma_keyed_map(t);
        assert(!keyed_map(t).contains_key(s.last().0)) by {
            if keyed_map(t).contains_key(s.last().0) {
                let j = choose|j: int| 0 <= j < t.len() && t[j].0 == s.last().0;
                assert(s[j] == t[j]);
            }
        }
    }
}

} // verus!
