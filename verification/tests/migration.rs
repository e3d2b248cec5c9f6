use tbwidget::keyed::KeyedList;
use tbwidget::migration::{
    merge_legacy_plugin_runtime, merge_legacy_plugin_storage, JsonSlot, LegacyRuntimeEntry,
};

fn object(members: &[(&str, i64)]) -> KeyedList<i64> {
    let mut list = KeyedList::new();
    for (key, value) in members {
        list.insert(key.to_string(), *value);
    }
    list
}

#[test]
fn old_registrations_are_merged_field_by_field() {
    let mut plugins = KeyedList::new();
    plugins.insert("a".to_string(), JsonSlot::Object(object(&[("order", 9), ("directory", 1)])));
    plugins.insert("b".to_string(), JsonSlot::Other(5));
    let legacy = vec![
        ("a".to_string(), LegacyRuntimeEntry { enabled: Some(1), order: None }),
        ("b".to_string(), LegacyRuntimeEntry { enabled: None, order: Some(2) }),
        ("c".to_string(), LegacyRuntimeEntry { enabled: Some(0), order: Some(3) }),
    ];
    let mut merged = merge_legacy_plugin_runtime(Some(plugins), Some(legacy)).unwrap();
    assert_eq!(merged.len(), 3);
    match merged.take("a").unwrap() {
        JsonSlot::Object(a) => {
            assert_eq!(a.get("enabled"), Some(&1));
            assert_eq!(a.get("order"), Some(&9));
            assert_eq!(a.get("directory"), Some(&1));
        }
        JsonSlot::Other(_) => panic!("a must be an object"),
    }
    match merged.take("b").unwrap() {
        JsonSlot::Object(b) => {
            assert_eq!(b.get("order"), Some(&2));
            assert_eq!(b.get("enabled"), None);
            assert_eq!(b.len(), 1);
        }
        JsonSlot::Other(_) => panic!("b must become an object"),
    }
    match merged.take("c").unwrap() {
        JsonSlot::Object(c) => {
            assert_eq!(c.get("enabled"), Some(&0));
            assert_eq!(c.get("order"), Some(&3));
        }
        JsonSlot::Other(_) => panic!("c must be an object"),
    }
}

#[test]
fn without_old_plugins_nothing_changes() {
    let plugins: KeyedList<JsonSlot<i64>> = KeyedList::new();
    assert!(merge_legacy_plugin_runtime(Some(plugins), None).is_none());
    let merged = merge_legacy_plugin_runtime::<i64>(None, Some(Vec::new())).unwrap();
    assert_eq!(merged.len(), 0);
}

#[test]
fn old_storage_is_embedded_under_storage() {
    let mut plugins = KeyedList::new();
    plugins.insert("a".to_string(), JsonSlot::Object(object(&[("enabled", 1), ("storage", 0)])));
    let legacy = vec![("a".to_string(), 42), ("z".to_string(), 7)];
    let mut merged = merge_legacy_plugin_storage(Some(plugins), Some(legacy)).unwrap();
    match merged.take("a").unwrap() {
        JsonSlot::Object(a) => {
            assert_eq!(a.get("storage"), Some(&42));
            assert_eq!(a.get("enabled"), Some(&1));
        }
        JsonSlot::Other(_) => panic!("a must be an object"),
    }
    match merged.take("z").unwrap() {
        JsonSlot::Object(z) => assert_eq!(z.get("storage"), Some(&7)),
        JsonSlot::Other(_) => panic!("z must be an object"),
    }
    assert!(merge_legacy_plugin_storage::<i64>(None, None).is_none());
}

#[test]
fn keyed_list_replaces_and_removes() {
    let mut list = KeyedList::new();
    list.insert("k".to_string(), 1);
    list.insert("k".to_string(), 2);
    list.insert("j".to_string(), 3);
    assert_eq!(list.len(), 2);
    assert_eq!(list.get("k"), Some(&2));
    assert_eq!(list.take("k"), Some(2));
    assert_eq!(list.take("k"), None);
    assert_eq!(list.into_members(), vec![("j".to_string(), 3)]);
}
