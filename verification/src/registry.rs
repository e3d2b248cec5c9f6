//! The registry of installed plugins kept in the main configuration: plugin id
//! mapped to its enabled flag, display order and directory, iterated in id
//! order as a `BTreeMap<String, _>` is.

use vstd::prelude::*;

use crate::text::{chars_equal, chars_less, lemma_seq_lt_asymmetric, lemma_seq_lt_irreflexive,
    lemma_seq_lt_total, lemma_seq_lt_transitive, owned, seq_lt};

verus! {

/// The registration of one plugin.
#[derive(Debug, Clone)]
pub struct PluginEntryState {
    pub enabled: bool,
    pub order: i32,
    pub directory: String,
}

/// The mathematical value of a [`PluginEntryState`].
pub struct EntrySpec {
    pub enabled: bool,
    pub order: i32,
    pub directory: Seq<char>,
}

impl View for PluginEntryState {
    type V = EntrySpec;

    open spec fn view(&self) -> EntrySpec {
        EntrySpec { enabled: self.enabled, order: self.order, directory: self.directory@ }
    }
}

impl PluginEntryState {
    /// A registration with the given fields.
    pub fn new(enabled: bool, order: i32, directory: &str) -> (r: PluginEntryState)
        ensures
            r@ == (EntrySpec { enabled, order, directory: directory@ }),
    {
        PluginEntryState { enabled, order, directory: owned(directory) }
    }

    /// An independent copy with the same value.
    pub fn duplicate(&self) -> (r: PluginEntryState)
        ensures
            r@ == self@,
    {
        PluginEntryState {
            enabled: self.enabled,
            order: self.order,
            directory: self.directory.clone(),
        }
    }
}

/// The value an absent registration reads as (`PluginEntryState::default()`).
pub open spec fn default_entry() -> EntrySpec {
    EntrySpec { enabled: false, order: 0, directory: Seq::empty() }
}

impl Default for PluginEntryState {
    fn default() -> (r: PluginEntryState)
        ensures
            r@ == default_entry(),
    {
        PluginEntryState { enabled: false, order: 0, directory: String::new() }
    }
}

/// Keys strictly ascending in the order of `String`.
pub open spec fn keys_ascending(s: Seq<(Seq<char>, EntrySpec)>) -> bool {
    forall|i: int, j: int| 0 <= i < j < s.len() ==> seq_lt(#[trigger] s[i].0, #[trigger] s[j].0)
}

/// The map that a key-ordered list of registrations denotes.
pub open spec fn entries_map(s: Seq<(Seq<char>, EntrySpec)>) -> Map<Seq<char>, EntrySpec>
    decreases s.len(),
{
    if s.len() == 0 {
        Map::empty()
    } else {
        entries_map(s.drop_last()).insert(s.last().0, s.last().1)
    }
}

/// Every listed key maps to its listed value, and nothing else is mapped.
pub proof fn lemma_entries_map(s: Seq<(Seq<char>, EntrySpec)>)
    requires
        keys_ascending(s),
    ensures
        forall|i: int| 0 <= i < s.len() ==> #[trigger] entries_map(s).contains_key(s[i].0)
            && entries_map(s)[s[i].0] == s[i].1,
        forall|k: Seq<char>| #[trigger]
            entries_map(s).contains_key(k) ==> exists|i: int| 0 <= i < s.len() && s[i].0 == k,
    decreases s.len(),
{
    if s.len() > 0 {
        let t = s.drop_last();
        let last = s.last();
        assert(keys_ascending(t));
        lemma_entries_map(t);
        assert(entries_map(s) == entries_map(t).insert(last.0, last.1));
        assert forall|i: int| 0 <= i < s.len() implies #[trigger] entries_map(s).contains_key(
            s[i].0,
        ) && entries_map(s)[s[i].0] == s[i].1 by {
            if i < s.len() - 1 {
                lemma_seq_lt_asymmetric(s[i].0, last.0);
                assert(t[i] == s[i]);
                assert(entries_map(t).contains_key(t[i].0));
            }
        }
        assert forall|k: Seq<char>| #[trigger]
            entries_map(s).contains_key(k) implies exists|i: int| 0 <= i < s.len() && s[i].0
            == k by {
            if k != last.0 {
                assert(entries_map(t).contains_key(k));
                let i = choose|i: int| 0 <= i < t.len() && t[i].0 == k;
                assert(s[i] == t[i]);
            } else {
                assert(s[s.len() - 1].0 == k);
            }
        }
    }
}

/// The keys of the denoted map are exactly the listed keys, and each maps to
/// a value listed with it.
proof fn lemma_entries_map_keys(s: Seq<(Seq<char>, EntrySpec)>)
    ensures
        forall|k: Seq<char>| #[trigger]
            entries_map(s).contains_key(k) ==> exists|i: int|
                0 <= i < s.len() && s[i].0 == k && s[i].1 == entries_map(s)[k],
        forall|i: int| 0 <= i < s.len() ==> #[trigger] entries_map(s).contains_key(s[i].0),
    decreases s.len(),
{
    if s.len() > 0 {
        let t = s.drop_last();
        lemma_entries_map_keys(t);
        assert forall|k: Seq<char>| #[trigger]
            entries_map(s).contains_key(k) implies exists|i: int|
                0 <= i < s.len() && s[i].0 == k && s[i].1 == entries_map(s)[k] by {
            if k != s.last().0 {
                assert(entries_map(t).contains_key(k));
                let i = choose|i: int|
                    0 <= i < t.len() && t[i].0 == k && t[i].1 == entries_map(t)[k];
                assert(s[i] == t[i]);
            } else {
                assert(s[s.len() - 1].0 == k);
            }
        }
        assert forall|i: int| 0 <= i < s.len() implies #[trigger] entries_map(s).contains_key(s[i].0) by {
            if i < s.len() - 1 {
                assert(t[i] == s[i]);
                assert(entries_map(t).contains_key(t[i].0));
            }
        }
    }
}

/// Replacing the value at a listed key updates the denoted map at that key.
proof fn lemma_entries_map_update(s: Seq<(Seq<char>, EntrySpec)>, i: int, v: EntrySpec)
    requires
        0 <= i < s.len(),
        forall|j: int| 0 <= j < s.len() && j != i ==> s[j].0 != s[i].0,
    ensures
        entries_map(s.update(i, (s[i].0, v))) == entries_map(s).insert(s[i].0, v),
    decreases s.len(),
{
    let u = s.update(i, (s[i].0, v));
    let t = s.drop_last();
    if i == s.len() - 1 {
        assert(u.drop_last() =~= t);
        assert(entries_map(u) =~= entries_map(s).insert(s[i].0, v));
    } else {
        assert(u.drop_last() =~= t.update(i, (t[i].0, v)));
        lemma_entries_map_update(t, i, v);
        assert(s.last().0 != s[i].0);
        assert(entries_map(u) =~= entries_map(s).insert(s[i].0, v));
    }
}

/// Adding a listing with a new key anywhere adds that key to the denoted map.
proof fn lemma_entries_map_insert(s: Seq<(Seq<char>, EntrySpec)>, i: int, k: Seq<char>, v: EntrySpec)
    requires
        0 <= i <= s.len(),
        forall|j: int| 0 <= j < s.len() ==> s[j].0 != k,
    ensures
        entries_map(s.insert(i, (k, v))) == entries_map(s).insert(k, v),
    decreases s.len(),
{
    let u = s.insert(i, (k, v));
    if i == s.len() {
        assert(u.drop_last() =~= s);
        assert(u.last() == (k, v));
    } else {
        let t = s.drop_last();
        assert(u.drop_last() =~= t.insert(i, (k, v)));
        assert(u.last() == s.last());
        lemma_entries_map_insert(t, i, k, v);
        assert(s.last().0 != k);
        assert(entries_map(u) =~= entries_map(s).insert(k, v));
    }
}

/// Plugin registrations keyed by plugin id.
pub struct PluginRuntimeConfig {
    plugins: Vec<(String, PluginEntryState)>,
}

impl PluginRuntimeConfig {
    /// The registrations in ascending id order.
    pub closed spec fn entries(&self) -> Seq<(Seq<char>, EntrySpec)> {
        self.plugins@.map_values(|p: (String, PluginEntryState)| (p.0@, p.1@))
    }

    #[verifier::type_invariant]
    pub closed spec fn ids_ascending(&self) -> bool {
        keys_ascending(self.entries())
    }

    /// The listing is in strictly ascending id order and denotes the map.
    pub proof fn lemma_entries(&self)
        requires
            self.ids_ascending(),
        ensures
            keys_ascending(self.entries()),
            self@ == entries_map(self.entries()),
            forall|i: int| 0 <= i < self.entries().len() ==> #[trigger] self@.contains_key(
                self.entries()[i].0,
            ) && self@[self.entries()[i].0] == self.entries()[i].1,
            forall|k: Seq<char>| #[trigger]
                self@.contains_key(k) ==> exists|i: int|
                    0 <= i < self.entries().len() && self.entries()[i].0 == k,
    {
        let e = self.entries();
        lemma_entries_map(e);
        assert(self@ == entries_map(e));
        assert forall|i: int| 0 <= i < e.len() implies #[trigger] self@.contains_key(e[i].0)
            && self@[e[i].0] == e[i].1 by {
            assert(entries_map(e).contains_key(e[i].0));
        }
        assert forall|k: Seq<char>| #[trigger] self@.contains_key(k) implies exists|i: int|
            0 <= i < e.len() && e[i].0 == k by {
            assert(entries_map(e).contains_key(k));
        }
    }

    /// Each registered id appears in the listing.
    pub proof fn lemma_entries_from_view(&self)
        ensures
            forall|k: Seq<char>| #[trigger]
                self@.contains_key(k) ==> exists|i: int|
                    0 <= i < self.entries().len() && self.entries()[i].0 == k
                        && self.entries()[i].1 == self@[k],
            forall|i: int| 0 <= i < self.entries().len() ==> #[trigger] self@.contains_key(
                self.entries()[i].0,
            ),
    {
        lemma_entries_map_keys(self.entries());
    }

    /// An empty registry.
    pub fn new() -> (r: PluginRuntimeConfig)
        ensures
            r@ == Map::<Seq<char>, EntrySpec>::empty(),
            r.entries().len() == 0,
    {
        let r = PluginRuntimeConfig { plugins: Vec::new() };
        assert(r.entries() =~= Seq::empty());
        r
    }

    /// The number of registered plugins.
    pub fn len(&self) -> (n: usize)
        ensures
            n == self.entries().len(),
    {
        self.plugins.len()
    }

    /// The id of the `i`-th registration in id order.
    pub fn id_at(&self, i: usize) -> (id: &String)
        requires
            i < self.entries().len(),
        ensures
            id@ == self.entries()[i as int].0,
    {
        &self.plugins[i].0
    }

    /// The `i`-th registration in id order.
    pub fn entry_at(&self, i: usize) -> (entry: &PluginEntryState)
        requires
            i < self.entries().len(),
        ensures
            entry@ == self.entries()[i as int].1,
    {
        &self.plugins[i].1
    }

    /// The position of `id` in the listing, if registered.
    fn position(&self, id: &str) -> (r: Option<usize>)
        ensures
            match r {
                Some(i) => i < self.entries().len() && self.entries()[i as int].0 == id@,
                None => forall|i: int|
                    0 <= i < self.entries().len() ==> self.entries()[i].0 != id@,
            },
    {
        let mut i: usize = 0;
        while i < self.plugins.len()
            invariant
                i <= self.plugins@.len(),
                self.entries().len() == self.plugins@.len(),
                forall|j: int| 0 <= j < i ==> self.entries()[j].0 != id@,
            decreases self.plugins@.len() - i,
        {
            if chars_equal(self.plugins[i].0.as_str(), id) {
                return Some(i);
            }
            i = i + 1;
        }
        None
    }

    /// The registration of `id`, if any.
    pub fn get(&self, id: &str) -> (r: Option<&PluginEntryState>)
        ensures
            match r {
                Some(entry) => self@.contains_key(id@) && entry@ == self@[id@],
                None => !self@.contains_key(id@),
            },
    {
        proof {
            use_type_invariant(self);
            self.lemma_entries();
        }
        match self.position(id) {
            Some(i) => {
                assert(self@.contains_key(self.entries()[i as int].0));
                Some(&self.plugins[i].1)
            },
            None => None,
        }
    }

    /// Whether `id` is registered.
    pub fn contains(&self, id: &str) -> (r: bool)
        ensures
            r == self@.contains_key(id@),
    {
        proof {
            use_type_invariant(self);
            self.lemma_entries();
        }
        self.position(id).is_some()
    }

    /// Registers `entry` under `id`, replacing an earlier registration.
    #[verifier::rlimit(60)]
    #[verifier::spinoff_prover]
    pub fn insert(&mut self, id: String, entry: PluginEntryState)
        ensures
            final(self)@ == old(self)@.insert(id@, entry@),
    {
        proof {
            use_type_invariant(&*self);
            self.lemma_entries();
        }
        let ghost old_entries = self.entries();
        let n = self.plugins.len();
        let mut i: usize = 0;
        while i < n && chars_less(self.plugins[i].0.as_str(), id.as_str())
            invariant
                n == self.plugins@.len(),
                n == old_entries.len(),
                old_entries == self.entries(),
                i <= n,
                forall|j: int| 0 <= j < i ==> seq_lt(#[trigger] old_entries[j].0, id@),
            decreases n - i,
        {
            i = i + 1;
        }
        let ghost new_item = (id@, entry@);
        if i < n && chars_equal(self.plugins[i].0.as_str(), id.as_str()) {
            let mut plugins: Vec<(String, PluginEntryState)> = Vec::new();
            std::mem::swap(&mut plugins, &mut self.plugins);
            plugins.set(i, (id, entry));
            let ghost e2 = plugins@.map_values(|p: (String, PluginEntryState)| (p.0@, p.1@));
            assert(e2 =~= old_entries.update(i as int, new_item));
            assert(keys_ascending(e2)) by {
                assert forall|a: int, b: int| 0 <= a < b < e2.len() implies seq_lt(
                    #[trigger] e2[a].0,
                    #[trigger] e2[b].0,
                ) by {
                    assert(e2[a].0 == old_entries[a].0);
                    assert(e2[b].0 == old_entries[b].0);
                }
            }
            self.plugins = plugins;
            proof {
                assert(self.entries() == e2);
                assert forall|j: int| 0 <= j < old_entries.len() && j != i implies old_entries[j].0
                    != old_entries[i as int].0 by {
                    if j < i {
                        lemma_seq_lt_asymmetric(old_entries[j].0, old_entries[i as int].0);
                    } else {
                        lemma_seq_lt_asymmetric(old_entries[i as int].0, old_entries[j].0);
                    }
                }
                lemma_entries_map_update(old_entries, i as int, entry@);
                assert(old_entries.update(i as int, (old_entries[i as int].0, entry@)) =~= e2);
            }
        } else {
            proof {
                if i < n {
                    lemma_seq_lt_total(old_entries[i as int].0, id@);
                }
            }
            let mut plugins: Vec<(String, PluginEntryState)> = Vec::new();
            std::mem::swap(&mut plugins, &mut self.plugins);
            plugins.insert(i, (id, entry));
            let ghost e2 = plugins@.map_values(|p: (String, PluginEntryState)| (p.0@, p.1@));
            assert(e2 =~= old_entries.insert(i as int, new_item));
            assert(keys_ascending(e2)) by {
                assert forall|a: int, b: int| 0 <= a < b < e2.len() implies seq_lt(
                    #[trigger] e2[a].0,
                    #[trigger] e2[b].0,
                ) by {
                    if b < i {
                    } else if a < i && b == i {
                    } else if a < i && b > i {
                        assert(e2[b] == old_entries[b - 1]);
                    } else if a == i {
                        assert(e2[b] == old_entries[b - 1]);
                        if b - 1 > i {
                            lemma_seq_lt_transitive(id@, old_entries[i as int].0, old_entries[b
                                - 1].0);
                        }
                    } else {
                        assert(e2[a] == old_entries[a - 1]);
                        assert(e2[b] == old_entries[b - 1]);
                    }
                }
            }
            self.plugins = plugins;
            proof {
                assert(self.entries() == e2);
                assert forall|j: int| 0 <= j < old_entries.len() implies old_entries[j].0 != id@ by {
                    if j < i {
                        lemma_seq_lt_asymmetric(old_entries[j].0, id@);
                    } else if j > i {
                        lemma_seq_lt_transitive(id@, old_entries[i as int].0, old_entries[j].0);
                        lemma_seq_lt_asymmetric(id@, old_entries[j].0);
                    }
                }
                lemma_entries_map_insert(old_entries, i as int, id@, entry@);
            }
        }
    }
}

impl View for PluginRuntimeConfig {
    type V = Map<Seq<char>, EntrySpec>;

    closed spec fn view(&self) -> Map<Seq<char>, EntrySpec> {
        entries_map(self.entries())
    }
}

impl Default for PluginRuntimeConfig {
    fn default() -> (r: PluginRuntimeConfig)
        ensures
            r@ == Map::<Seq<char>, EntrySpec>::empty(),
    {
        PluginRuntimeConfig::new()
    }
}


/// What a registration write leaves for a later read: `get` of the written
/// id gives the written entry, and every other registration reads as before.
pub proof fn registry_read_after_write(
    before: Map<Seq<char>, EntrySpec>,
    id: Seq<char>,
    entry: EntrySpec,
    other: Seq<char>,
)
    requires
        other != id,
    ensures
        before.insert(id, entry).contains_key(id),
        before.insert(id, entry)[id] == entry,
        before.insert(id, entry).contains_key(other) == before.contains_key(other),
        before.contains_key(other) ==> before.insert(id, entry)[other] == before[other],
{
}

} // verus!
