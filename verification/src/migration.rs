//! Folding the configuration files of earlier versions into the main
//! configuration: plugin registrations (`enabled`, `order`) and embedded
//! plugin storage are merged into the `plugins` object of the main file.
//! JSON values are carried through as they are (`V`); only objects and keys
//! are looked at.

use vstd::prelude::*;

use crate::keyed::KeyedList;
use crate::text::owned;

verus! {

/// A member of the `plugins` object: an object (its members by key) or any
/// other JSON value.
pub enum JsonSlot<V> {
    Object(KeyedList<V>),
    Other(V),
}

/// The mathematical value of a [`JsonSlot`].
pub enum SlotView<V> {
    Object(Map<Seq<char>, V>),
    Other(V),
}

pub open spec fn slot_view<V>(slot: JsonSlot<V>) -> SlotView<V> {
    match slot {
        JsonSlot::Object(members) => SlotView::Object(members.map()),
        JsonSlot::Other(value) => SlotView::Other(value),
    }
}

/// The `plugins` object as a map from plugin id to slot.
pub open spec fn slots_view<V>(plugins: KeyedList<JsonSlot<V>>) -> Map<Seq<char>, SlotView<V>> {
    plugins.map().map_values(|slot: JsonSlot<V>| slot_view(slot))
}

/// The `plugins` object handed in; an absent one (or one that is not an
/// object) reads as empty.
pub open spec fn plugins_view<V>(plugins: Option<KeyedList<JsonSlot<V>>>) -> Map<Seq<char>, SlotView<V>> {
    match plugins {
        Some(p) => slots_view(p),
        None => Map::empty(),
    }
}

/// The members of a slot that is an object; nothing for anything else,
/// which is replaced by an empty object.
pub open spec fn object_members<V>(plugins: Map<Seq<char>, SlotView<V>>, id: Seq<char>) -> Map<
    Seq<char>,
    V,
> {
    if plugins.contains_key(id) {
        match plugins[id] {
            SlotView::Object(members) => members,
            SlotView::Other(_) => Map::empty(),
        }
    } else {
        Map::empty()
    }
}

pub open spec fn with_optional<V>(members: Map<Seq<char>, V>, key: Seq<char>, value: Option<V>) -> Map<
    Seq<char>,
    V,
> {
    match value {
        Some(v) => members.insert(key, v),
        None => members,
    }
}

/// The registration fields of a plugin in the old plugin configuration
/// (each absent when the old entry lacks it or is not an object).
pub struct LegacyRuntimeEntry<V> {
    pub enabled: Option<V>,
    pub order: Option<V>,
}

pub open spec fn legacy_runtime_view<V>(legacy: Seq<(String, LegacyRuntimeEntry<V>)>) -> Seq<
    (Seq<char>, Option<V>, Option<V>),
> {
    legacy.map_values(|e: (String, LegacyRuntimeEntry<V>)| (e.0@, e.1.enabled, e.1.order))
}

/// The `plugins` object after the old registrations were merged in, one
/// after the other: each plugin's member becomes an object (kept when it
/// was one) and takes over the old `enabled` and `order` that exist.
pub open spec fn merged_runtime<V>(
    plugins: Map<Seq<char>, SlotView<V>>,
    legacy: Seq<(Seq<char>, Option<V>, Option<V>)>,
) -> Map<Seq<char>, SlotView<V>>
    decreases legacy.len(),
{
    if legacy.len() == 0 {
        plugins
    } else {
        let prev = merged_runtime(plugins, legacy.drop_last());
        let e = legacy.last();
        prev.insert(
            e.0,
            SlotView::Object(
                with_optional(with_optional(object_members(prev, e.0), "enabled"@, e.1), "order"@, e.2),
            ),
        )
    }
}

fn take_object<V>(plugins: &mut KeyedList<JsonSlot<V>>, id: &str) -> (members: KeyedList<V>)
    ensures
        final(plugins).map() == old(plugins).map().remove(id@),
        members.map() == object_members(slots_view(*old(plugins)), id@),
{
    let ghost sv = slots_view(*plugins);
    match plugins.take(id) {
        Some(JsonSlot::Object(members)) => {
            assert(sv.contains_key(id@));
            members
        },
        Some(JsonSlot::Other(_)) => {
            assert(sv.contains_key(id@));
            KeyedList::new()
        },
        None => {
            assert(!sv.contains_key(id@));
            KeyedList::new()
        },
    }
}

fn put_slot<V>(plugins: &mut KeyedList<JsonSlot<V>>, id: String, slot: JsonSlot<V>)
    ensures
        slots_view(*final(plugins)) == slots_view(*old(plugins)).insert(id@, slot_view(slot)),
{
    let ghost k = id@;
    let ghost sv = slot_view(slot);
    plugins.insert(id, slot);
    assert(slots_view(*plugins) =~= slots_view(*old(plugins)).insert(k, sv));
}

/// Merges the registrations of the old plugin configuration into the
/// `plugins` object (`None`: absent or not an object). Without an old
/// `plugins` object nothing changes (`None` is returned).
pub fn merge_legacy_plugin_runtime<V>(
    plugins: Option<KeyedList<JsonSlot<V>>>,
    legacy: Option<Vec<(String, LegacyRuntimeEntry<V>)>>,
) -> (r: Option<KeyedList<JsonSlot<V>>>)
    ensures
        legacy is None ==> r is None,
        legacy matches Some(l) ==> (r matches Some(merged) && slots_view(merged) == merged_runtime(
            plugins_view(plugins),
            legacy_runtime_view(l@),
        )),
{
    let mut legacy = match legacy {
        Some(l) => l,
        None => return None,
    };
    let ghost all = legacy_runtime_view(legacy@);
    let ghost start = plugins_view(plugins);
    let mut plugins = match plugins {
        Some(p) => p,
        None => {
            let p = KeyedList::new();
            assert(slots_view(p) =~= Map::empty());
            p
        },
    };
    let ghost n = all.len();
    let total = legacy.len();
    assert(n == total);
    let mut k: usize = 0;
    assert(all.take(0) =~= Seq::<(Seq<char>, Option<V>, Option<V>)>::empty());
    while legacy.len() > 0
        invariant
            n == all.len(),
            n <= usize::MAX,
            k + legacy@.len() == n,
            legacy_runtime_view(legacy@) == all.skip(k as int),
            slots_view(plugins) == merged_runtime(start, all.take(k as int)),
        decreases legacy@.len(),
    {
        let ghost e = all[k as int];
        assert(legacy_runtime_view(legacy@)[0] == e);
        let ghost before = legacy@;
        let (id, entry) = legacy.remove(0);
        assert(legacy@ =~= before.subrange(1, before.len() as int));
        assert(legacy_runtime_view(legacy@) =~= legacy_runtime_view(before).skip(1));
        assert(legacy_runtime_view(legacy@) =~= all.skip(k + 1));
        let ghost prev = slots_view(plugins);
        let mut members = take_object(&mut plugins, id.as_str());
        let ghost m0 = members.map();
        match entry.enabled {
            Some(v) => members.insert(owned("enabled"), v),
            None => {},
        }
        match entry.order {
            Some(v) => members.insert(owned("order"), v),
            None => {},
        }
        assert(members.map() == with_optional(with_optional(m0, "enabled"@, e.1), "order"@, e.2));
        let ghost removed = slots_view(plugins);
        assert(removed =~= prev.remove(e.0));
        put_slot(&mut plugins, id, JsonSlot::Object(members));
        assert(all.take(k + 1).drop_last() =~= all.take(k as int));
        assert(slots_view(plugins) =~= merged_runtime(start, all.take(k + 1)));
        k = k + 1;
    }
    assert(all.take(n as int) =~= all);
    Some(plugins)
}

pub open spec fn legacy_storage_view<V>(legacy: Seq<(String, V)>) -> Seq<(Seq<char>, V)> {
    legacy.map_values(|e: (String, V)| (e.0@, e.1))
}

/// The `plugins` object after the old plugin storage was merged in: each
/// plugin's member becomes an object (kept when it was one) whose `storage`
/// is the plugin's old storage.
pub open spec fn merged_storage<V>(
    plugins: Map<Seq<char>, SlotView<V>>,
    legacy: Seq<(Seq<char>, V)>,
) -> Map<Seq<char>, SlotView<V>>
    decreases legacy.len(),
{
    if legacy.len() == 0 {
        plugins
    } else {
        let prev = merged_storage(plugins, legacy.drop_last());
        let e = legacy.last();
        prev.insert(e.0, SlotView::Object(object_members(prev, e.0).insert("storage"@, e.1)))
    }
}

/// Merges the old per-plugin storage into the `plugins` object (`None`:
/// absent or not an object). Without an old `plugins` object nothing
/// changes (`None` is returned).
pub fn merge_legacy_plugin_storage<V>(
    plugins: Option<KeyedList<JsonSlot<V>>>,
    legacy: Option<Vec<(String, V)>>,
) -> (r: Option<KeyedList<JsonSlot<V>>>)
    ensures
        legacy is None ==> r is None,
        legacy matches Some(l) ==> (r matches Some(merged) && slots_view(merged) == merged_storage(
            plugins_view(plugins),
            legacy_storage_view(l@),
        )),
{
    let mut legacy = match legacy {
        Some(l) => l,
        None => return None,
    };
    let ghost all = legacy_storage_view(legacy@);
    let ghost start = plugins_view(plugins);
    let mut plugins = match plugins {
        Some(p) => p,
        None => {
            let p = KeyedList::new();
            assert(slots_view(p) =~= Map::empty());
            p
        },
    };
    let ghost n = all.len();
    let total = legacy.len();
    assert(n == total);
    let mut k: usize = 0;
    assert(all.take(0) =~= Seq::<(Seq<char>, V)>::empty());
    while legacy.len() > 0
        invariant
            n == all.len(),
            n <= usize::MAX,
            k + legacy@.len() == n,
            legacy_storage_view(legacy@) == all.skip(k as int),
            slots_view(plugins) == merged_storage(start, all.take(k as int)),
        decreases legacy@.len(),
    {
        let ghost e = all[k as int];
        assert(legacy_storage_view(legacy@)[0] == e);
        let ghost before = legacy@;
        let (id, storage) = legacy.remove(0);
        assert(legacy@ =~= before.subrange(1, before.len() as int));
        assert(legacy_storage_view(legacy@) =~= legacy_storage_view(before).skip(1));
        assert(legacy_storage_view(legacy@) =~= all.skip(k + 1));
        let ghost prev = slots_view(plugins);
        let mut members = take_object(&mut plugins, id.as_str());
        members.insert(owned("storage"), storage);
        let ghost removed = slots_view(plugins);
        assert(removed =~= prev.remove(e.0));
        put_slot(&mut plugins, id, JsonSlot::Object(members));
        assert(all.take(k + 1).drop_last() =~= all.take(k as int));
        assert(slots_view(plugins) =~= merged_storage(start, all.take(k + 1)));
        k = k + 1;
    }
    assert(all.take(n as int) =~= all);
    Some(plugins)
}

/// After merging, every plugin of the old configuration has an object whose
/// `enabled` and `order` are the old ones where the old entry had them.
pub proof fn merged_runtime_takes_the_old_fields<V>(
    plugins: Map<Seq<char>, SlotView<V>>,
    legacy: Seq<(Seq<char>, Option<V>, Option<V>)>,
)
    requires
        legacy.len() > 0,
    ensures
        ({
            let e = legacy.last();
            let merged = merged_runtime(plugins, legacy);
            &&& merged.contains_key(e.0)
            &&& merged[e.0] matches SlotView::Object(m) && (e.1 matches Some(v) ==> m.contains_key(
                "enabled"@,
            ) && m["enabled"@] == v) && (e.2 matches Some(v) ==> m.contains_key("order"@)
                && m["order"@] == v)
        }),
{
    reveal_strlit("enabled");
    reveal_strlit("order");
    assert("enabled"@.len() != "order"@.len());
}

/// Merging keeps every plugin that the main configuration already had.
pub proof fn merged_runtime_keeps_plugins<V>(
    plugins: Map<Seq<char>, SlotView<V>>,
    legacy: Seq<(Seq<char>, Option<V>, Option<V>)>,
    id: Seq<char>,
)
    requires
        plugins.contains_key(id),
    ensures
        merged_runtime(plugins, legacy).contains_key(id),
    decreases legacy.len(),
{
    if legacy.len() > 0 {
        merged_runtime_keeps_plugins(plugins, legacy.drop_last(), id);
    }
}

/// Whether no two old entries name the same plugin (the keys of a JSON
/// object).
pub open spec fn distinct_runtime_ids<V>(legacy: Seq<(Seq<char>, Option<V>, Option<V>)>) -> bool {
    forall|a: int, b: int| 0 <= a < b < legacy.len() ==> (#[trigger] legacy[a]).0 != (
    #[trigger] legacy[b]).0
}

/// The merge of the old registrations as a whole: every plugin of the old
/// configuration gets an object that keeps the members its entry had (none
/// when the entry was missing or not an object) and takes over the old
/// `enabled` and `order` that exist; every other plugin is left as it was.
pub proof fn merged_runtime_closed_form<V>(
    plugins: Map<Seq<char>, SlotView<V>>,
    legacy: Seq<(Seq<char>, Option<V>, Option<V>)>,
)
    requires
        distinct_runtime_ids(legacy),
    ensures
        forall|i: int|
            0 <= i < legacy.len() ==> merged_runtime(plugins, legacy).contains_key(
                (#[trigger] legacy[i]).0,
            ) && merged_runtime(plugins, legacy)[legacy[i].0] == SlotView::Object(
                with_optional(
                    with_optional(object_members(plugins, legacy[i].0), "enabled"@, legacy[i].1),
                    "order"@,
                    legacy[i].2,
                ),
            ),
        forall|k: Seq<char>|
            (forall|i: int| 0 <= i < legacy.len() ==> (#[trigger] legacy[i]).0 != k) ==> (
            #[trigger] merged_runtime(plugins, legacy).contains_key(k) == plugins.contains_key(k)
                && (plugins.contains_key(k) ==> merged_runtime(plugins, legacy)[k] == plugins[k])),
    decreases legacy.len(),
{
    if legacy.len() > 0 {
        let front = legacy.drop_last();
        let e = legacy.last();
        assert(distinct_runtime_ids(front)) by {
            assert forall|a: int, b: int| 0 <= a < b < front.len() implies (#[trigger] front[a]).0
                != (#[trigger] front[b]).0 by {
                assert(front[a] == legacy[a] && front[b] == legacy[b]);
            }
        }
        merged_runtime_closed_form(plugins, front);
        let prev = merged_runtime(plugins, front);
        let merged = merged_runtime(plugins, legacy);
        assert forall|i: int| 0 <= i < front.len() implies (#[trigger] front[i]).0 != e.0 by {
            assert(front[i] == legacy[i]);
            assert(legacy[legacy.len() - 1] == e);
        }
        assert(object_members(prev, e.0) == object_members(plugins, e.0));
        assert forall|i: int| 0 <= i < legacy.len() implies merged.contains_key(
            (#[trigger] legacy[i]).0,
        ) && merged[legacy[i].0] == SlotView::Object(
            with_optional(
                with_optional(object_members(plugins, legacy[i].0), "enabled"@, legacy[i].1),
                "order"@,
                legacy[i].2,
            ),
        ) by {
            if i < legacy.len() - 1 {
                assert(front[i] == legacy[i]);
                assert(front[i].0 != e.0);
            }
        }
        assert forall|k: Seq<char>|
            (forall|i: int| 0 <= i < legacy.len() ==> (#[trigger] legacy[i]).0 != k) implies (
            #[trigger] merged.contains_key(k) == plugins.contains_key(k) && (plugins.contains_key(k)
                ==> merged[k] == plugins[k])) by {
            assert(legacy[legacy.len() - 1].0 != k);
            assert forall|i: int| 0 <= i < front.len() implies (#[trigger] front[i]).0 != k by {
                assert(front[i] == legacy[i]);
            }
        }
    }
}

/// Whether no two old storage entries name the same plugin.
pub open spec fn distinct_storage_ids<V>(legacy: Seq<(Seq<char>, V)>) -> bool {
    forall|a: int, b: int| 0 <= a < b < legacy.len() ==> (#[trigger] legacy[a]).0 != (
    #[trigger] legacy[b]).0
}

/// The merge of the old storage as a whole: every plugin of the old
/// configuration gets an object that keeps the members its entry had (none
/// when the entry was missing or not an object) and whose `storage` is the
/// old storage; every other plugin is left as it was.
pub proof fn merged_storage_closed_form<V>(
    plugins: Map<Seq<char>, SlotView<V>>,
    legacy: Seq<(Seq<char>, V)>,
)
    requires
        distinct_storage_ids(legacy),
    ensures
        forall|i: int|
            0 <= i < legacy.len() ==> merged_storage(plugins, legacy).contains_key(
                (#[trigger] legacy[i]).0,
            ) && merged_storage(plugins, legacy)[legacy[i].0] == SlotView::Object(
                object_members(plugins, legacy[i].0).insert("storage"@, legacy[i].1),
            ),
        forall|k: Seq<char>|
            (forall|i: int| 0 <= i < legacy.len() ==> (#[trigger] legacy[i]).0 != k) ==> (
            #[trigger] merged_storage(plugins, legacy).contains_key(k) == plugins.contains_key(k)
                && (plugins.contains_key(k) ==> merged_storage(plugins, legacy)[k] == plugins[k])),
    decreases legacy.len(),
{
    if legacy.len() > 0 {
        let front = legacy.drop_last();
        let e = legacy.last();
        assert(distinct_storage_ids(front)) by {
            assert forall|a: int, b: int| 0 <= a < b < front.len() implies (#[trigger] front[a]).0
                != (#[trigger] front[b]).0 by {
                assert(front[a] == legacy[a] && front[b] == legacy[b]);
            }
        }
        merged_storage_closed_form(plugins, front);
        let prev = merged_storage(plugins, front);
        let merged = merged_storage(plugins, legacy);
        assert forall|i: int| 0 <= i < front.len() implies (#[trigger] front[i]).0 != e.0 by {
            assert(front[i] == legacy[i]);
            assert(legacy[legacy.len() - 1] == e);
        }
        assert(object_members(prev, e.0) == object_members(plugins, e.0));
        assert forall|i: int| 0 <= i < legacy.len() implies merged.contains_key(
            (#[trigger] legacy[i]).0,
        ) && merged[legacy[i].0] == SlotView::Object(
            object_members(plugins, legacy[i].0).insert("storage"@, legacy[i].1),
        ) by {
            if i < legacy.len() - 1 {
                assert(front[i] == legacy[i]);
                assert(front[i].0 != e.0);
            }
        }
        assert forall|k: Seq<char>|
            (forall|i: int| 0 <= i < legacy.len() ==> (#[trigger] legacy[i]).0 != k) implies (
            #[trigger] merged.contains_key(k) == plugins.contains_key(k) && (plugins.contains_key(k)
                ==> merged[k] == plugins[k])) by {
            assert(legacy[legacy.len() - 1].0 != k);
            assert forall|i: int| 0 <= i < front.len() implies (#[trigger] front[i]).0 != k by {
                assert(front[i] == legacy[i]);
            }
        }
    }
}

} // verus!
