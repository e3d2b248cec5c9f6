//! Plugin manifests (`plugin.json`, version 2): validation, the descriptor
//! list shown to the front end, and the capability checks made before a
//! plugin may use a host API or open a surface.

use vstd::prelude::*;
use vstd::string::*;

use crate::ordering::{distinct_items, item_view, items_view, lemma_order_id_lt_distinct,
    order_id_lt, sort_by_order_id, sorted_by_order_id};
use crate::registry::{EntrySpec, PluginRuntimeConfig};
use crate::text::{chars_equal, contains_char, decimal_spec, owned, push_decimal, seq_lt, trim,
    trimmed};

verus! {

/// A parsed `plugin.json`.
#[derive(Debug, Clone)]
pub struct PluginManifest {
    pub manifest_version: u32,
    pub id: String,
    pub name: String,
    pub description: String,
    pub version: String,
    pub panel: Option<String>,
    pub popup: Option<String>,
    pub settings: Option<String>,
    pub permissions: Vec<String>,
    pub builtin: bool,
}

/// What the front end is told about one registered plugin.
#[derive(Debug, Clone)]
pub struct PluginDescriptor {
    pub id: String,
    pub name: String,
    pub description: String,
    pub version: String,
    pub manifest_version: u32,
    pub permissions: Vec<String>,
    pub enabled: bool,
    pub order: i32,
    pub panel: Option<String>,
    pub popup: Option<String>,
    pub settings: Option<String>,
    pub builtin: bool,
}

/// The only manifest format the host loads.
pub const SUPPORTED_MANIFEST_VERSION: u32 = 2;

/// A usable plugin id: not blank, no path separator, not `.` or `..`.
pub open spec fn is_valid_plugin_id(id: Seq<char>) -> bool {
    &&& trimmed(id).len() > 0
    &&& !id.contains('/')
    &&& !id.contains('\\')
    &&& id != seq!['.']
    &&& id != seq!['.', '.']
}

/// The message for a manifest of another version.
pub open spec fn unsupported_version_message(id: Seq<char>, version: u32) -> Seq<char> {
    "插件 "@ + id + " 使用不支持的 manifestVersion="@ + decimal_spec(version as nat)
        + "，当前仅支持 2"@
}

/// The message for a manifest whose id is unusable.
pub open spec fn invalid_id_message(root: Seq<char>) -> Seq<char> {
    "插件目录 "@ + root + " 的 id 无效"@
}

/// Checks a manifest read from the plugin directory `root` (shown as given).
pub fn validate_manifest(manifest: &PluginManifest, root: &str) -> (r: Result<(), String>)
    ensures
        match r {
            Ok(()) => manifest.manifest_version == 2 && is_valid_plugin_id(manifest.id@),
            Err(message) => if manifest.manifest_version != 2 {
                message@ == unsupported_version_message(manifest.id@, manifest.manifest_version)
            } else {
                !is_valid_plugin_id(manifest.id@) && message@ == invalid_id_message(root@)
            },
        },
{
    if manifest.manifest_version != SUPPORTED_MANIFEST_VERSION {
        let mut message = owned("插件 ");
        message.append(manifest.id.as_str());
        message.append(" 使用不支持的 manifestVersion=");
        push_decimal(&mut message, manifest.manifest_version as u64);
        message.append("，当前仅支持 2");
        return Err(message);
    }
    let id = manifest.id.as_str();
    let blank = trim(id).as_str().unicode_len() == 0;
    let dot = chars_equal(id, ".");
    let dots = chars_equal(id, "..");
    proof {
        reveal_strlit(".");
        reveal_strlit("..");
        assert("."@ =~= seq!['.']);
        assert(".."@ =~= seq!['.', '.']);
    }
    if blank || contains_char(id, '/') || contains_char(id, '\\') || dot || dots {
        let mut message = owned("插件目录 ");
        message.append(root);
        message.append(" 的 id 无效");
        return Err(message);
    }
    Ok(())
}

/// A plugin id is refused only when it is blank, holds a slash or a
/// backslash, or is `.` or `..`: every other id, hyphens, dots and any other characters
/// included, is accepted.
pub proof fn plugin_id_refused_only_when_blank_separated_or_dots(id: Seq<char>)
    ensures
        is_valid_plugin_id(id) <==> ((exists|i: int|
            0 <= i < id.len() && !crate::text::is_unicode_whitespace(#[trigger] id[i])) && (forall|
            i: int,
        |
            0 <= i < id.len() ==> #[trigger] id[i] != '/' && id[i] != '\\') && id != seq!['.']
            && id != seq!['.', '.']),
{
    crate::text::lemma_trimmed_blank(id);
    if forall|i: int| 0 <= i < id.len() ==> #[trigger] id[i] != '/' && id[i] != '\\' {
        assert(!id.contains('/'));
        assert(!id.contains('\\'));
    }
    if id.contains('/') {
        let i = choose|i: int| 0 <= i < id.len() && id[i] == '/';
        assert(id[i] == '/');
    }
    if id.contains('\\') {
        let i = choose|i: int| 0 <= i < id.len() && id[i] == '\\';
        assert(id[i] == '\\');
    }
}

/// The registration a plugin reads as: its entry, or the default (disabled,
/// order 0) when it has none.
pub open spec fn registration_of(registry: Map<Seq<char>, EntrySpec>, id: Seq<char>) -> EntrySpec {
    if registry.contains_key(id) {
        registry[id]
    } else {
        crate::registry::default_entry()
    }
}

/// `d` presents manifest `m` with the plugin's registration.
pub open spec fn describes(
    d: PluginDescriptor,
    m: PluginManifest,
    registry: Map<Seq<char>, EntrySpec>,
) -> bool {
    &&& d.id == m.id
    &&& d.name == m.name
    &&& d.description == m.description
    &&& d.version == m.version
    &&& d.manifest_version == m.manifest_version
    &&& d.permissions == m.permissions
    &&& d.panel == m.panel
    &&& d.popup == m.popup
    &&& d.settings == m.settings
    &&& d.builtin == m.builtin
    &&& d.enabled == registration_of(registry, m.id@).enabled
    &&& d.order == registration_of(registry, m.id@).order
}

/// `d` presents one of the manifests `ms` with its registration.
pub open spec fn describes_one_of(
    d: PluginDescriptor,
    ms: Seq<PluginManifest>,
    registry: Map<Seq<char>, EntrySpec>,
) -> bool {
    exists|i: int| 0 <= i < ms.len() && describes(d, #[trigger] ms[i], registry)
}

/// `a` is listed before `b`: smaller order, or equal order and smaller id.
pub open spec fn listed_before(a: PluginDescriptor, b: PluginDescriptor) -> bool {
    a.order < b.order || (a.order == b.order && seq_lt(a.id@, b.id@))
}

/// Manifests in strictly ascending id order (as loaded from the registry).
pub open spec fn ids_strictly_ascending(manifests: Seq<PluginManifest>) -> bool {
    forall|i: int, j: int|
        0 <= i < j < manifests.len() ==> seq_lt(#[trigger] manifests[i].id@, #[trigger] manifests[j].id@)
}

/// The plugin's registration, or the default when it has none.
pub fn registration(runtime: &PluginRuntimeConfig, id: &str) -> (r: (bool, i32))
    ensures
        r.0 == registration_of(runtime@, id@).enabled,
        r.1 == registration_of(runtime@, id@).order,
{
    match runtime.get(id) {
        Some(entry) => (entry.enabled, entry.order),
        None => (false, 0),
    }
}

/// Describes the manifests (given in id order) with their registrations,
/// listed by order and then id, as a stable sort by order leaves them.
pub fn build_descriptors(manifests: Vec<PluginManifest>, runtime: &PluginRuntimeConfig) -> (descriptors: Vec<PluginDescriptor>)
    requires
        ids_strictly_ascending(manifests@),
    ensures
        descriptors@.len() == manifests@.len(),
        forall|j: int|
            0 <= j < descriptors@.len() ==> describes_one_of(
                #[trigger] descriptors@[j],
                manifests@,
                runtime@,
            ),
        forall|a: int, b: int|
            0 <= a < b < descriptors@.len() ==> listed_before(
                #[trigger] descriptors@[a],
                #[trigger] descriptors@[b],
            ),
{
    let ghost src = manifests@;
    let n = manifests.len();
    let mut items: Vec<(i32, String, usize)> = Vec::new();
    let mut i: usize = 0;
    while i < n
        invariant
            n == src.len(),
            src == manifests@,
            i <= n,
            items@.len() == i,
            forall|k: int| 0 <= k < i ==> #[trigger] items_view(items@)[k] == (
                registration_of(runtime@, src[k].id@).order,
                src[k].id@,
                k as usize,
            ),
        decreases n - i,
    {
        let (_, order) = registration(runtime, manifests[i].id.as_str());
        let ghost before = items_view(items@);
        let id = manifests[i].id.clone();
        items.push((order, id, i));
        assert(items_view(items@) =~= before.push((order, src[i as int].id@, i)));
        i = i + 1;
    }
    let ghost iv = items_view(items@);
    assert(distinct_items(iv)) by {
        assert forall|a: int, b: int| 0 <= a < b < iv.len() implies #[trigger] iv[a] != #[trigger] iv[b] by {
            assert(iv[a].2 == a && iv[b].2 == b);
        }
    }
    let sorted = sort_by_order_id(items);
    let ghost sv = items_view(sorted@);
    // every sorted item is one of the items, so its index is in range and names
    // the manifest with that id
    assert forall|j: int| 0 <= j < sv.len() implies 0 <= (#[trigger] sv[j]).2 < n && sv[j] == iv[sv[j].2 as int] by {
        assert(sv.to_set().contains(sv[j]));
        assert(iv.to_set().contains(sv[j]));
        let w = choose|w: int| 0 <= w < iv.len() && iv[w] == sv[j];
    }
    // take the manifests out into slots, so that each can be moved once
    let mut slots: Vec<Option<PluginManifest>> = Vec::new();
    let mut rest = manifests;
    while rest.len() > 0
        invariant
            rest@.len() + slots@.len() == n,
            forall|k: int| 0 <= k < rest@.len() ==> #[trigger] rest@[k] == src[k],
            forall|k: int| 0 <= k < slots@.len() ==> #[trigger] slots@[k] == Some(src[n - 1 - k]),
        decreases rest@.len(),
    {
        let m = rest.pop().unwrap();
        slots.push(Some(m));
    }
    let mut descriptors: Vec<PluginDescriptor> = Vec::new();
    let mut j: usize = 0;
    while j < sorted.len()
        invariant
            sorted@.len() == n,
            sv == items_view(sorted@),
            sorted_by_order_id(sv),
            slots@.len() == n,
            j <= n,
            descriptors@.len() == j,
            forall|t: int| 0 <= t < sv.len() ==> 0 <= (#[trigger] sv[t]).2 < n && sv[t] == iv[sv[t].2 as int],
            forall|t: int| 0 <= t < n ==> #[trigger] iv[t] == (
                registration_of(runtime@, src[t].id@).order,
                src[t].id@,
                t as usize,
            ),
            forall|t: int| j <= t < n ==> slots@[n - 1 - sv[t].2] == Some(src[sv[t].2 as int]),
            forall|t: int|
                0 <= t < j ==> describes(#[trigger] descriptors@[t], src[sv[t].2 as int], runtime@),
        decreases n - j,
    {
        let idx = sorted[j].2;
        assert(sv[j as int].2 == idx);
        let slot = n - 1 - idx;
        let mut taken: Option<PluginManifest> = None;
        std::mem::swap(&mut taken, &mut slots[slot]);
        proof {
            assert forall|t: int| j < t < n implies slots@[n - 1 - sv[t].2] == Some(src[sv[t].2 as int]) by {
                if sv[t].2 == sv[j as int].2 {
                    assert(sv[t] == iv[sv[t].2 as int]);
                    assert(sv[j as int] == iv[sv[j as int].2 as int]);
                    lemma_order_id_lt_distinct(sv[j as int], sv[t]);
                }
            }
        }
        let m = taken.unwrap();
        let (enabled, order) = registration(runtime, m.id.as_str());
        let d = PluginDescriptor {
            id: m.id,
            name: m.name,
            description: m.description,
            version: m.version,
            manifest_version: m.manifest_version,
            permissions: m.permissions,
            enabled,
            order,
            panel: m.panel,
            popup: m.popup,
            settings: m.settings,
            builtin: m.builtin,
        };
        descriptors.push(d);
        j = j + 1;
    }
    proof {
        assert forall|t: int| 0 <= t < descriptors@.len() implies describes_one_of(
            #[trigger] descriptors@[t],
            src,
            runtime@,
        ) by {
            let w = sv[t].2 as int;
            assert(0 <= w < src.len());
            assert(describes(descriptors@[t], src[w], runtime@));
        }
        assert forall|a: int, b: int| 0 <= a < b < descriptors@.len() implies listed_before(
            #[trigger] descriptors@[a],
            #[trigger] descriptors@[b],
        ) by {
            let ia = sv[a].2 as int;
            let ib = sv[b].2 as int;
            assert(order_id_lt(sv[a], sv[b]));
            assert(sv[a] == iv[ia] && sv[b] == iv[ib]);
            if ia != ib {
                if ia < ib {
                    assert(seq_lt(src[ia].id@, src[ib].id@));
                    crate::text::lemma_seq_lt_asymmetric(src[ia].id@, src[ib].id@);
                } else {
                    assert(seq_lt(src[ib].id@, src[ia].id@));
                    crate::text::lemma_seq_lt_asymmetric(src[ib].id@, src[ia].id@);
                }
            } else {
                lemma_order_id_lt_distinct(sv[a], sv[b]);
            }
        }
    }
    descriptors
}


/// `out` is `src` sorted by manifest id, manifests with equal ids keeping
/// their order (a stable sort by id): `p` gives each output position its
/// input position.
pub open spec fn stably_sorted_by_id(
    src: Seq<(String, PluginManifest)>,
    out: Seq<(String, PluginManifest)>,
    p: Seq<int>,
) -> bool {
    &&& p.len() == src.len()
    &&& out.len() == src.len()
    &&& forall|k: int| 0 <= k < out.len() ==> 0 <= #[trigger] p[k] < src.len() && out[k] == src[p[k]]
    &&& forall|a: int, b: int| 0 <= a < b < out.len() ==> #[trigger] p[a] != #[trigger] p[b]
    &&& forall|a: int, b: int|
        0 <= a < b < out.len() ==> seq_lt((#[trigger] out[a]).1.id@, (#[trigger] out[b]).1.id@) || (
        out[a].1.id@ == out[b].1.id@ && p[a] < p[b])
}

/// Sorts the manifests found in the plugin folder (with their directories)
/// by id; manifests with the same id keep the order they were found in.
pub fn sort_scanned_manifests(scanned: Vec<(String, PluginManifest)>) -> (sorted: Vec<(String, PluginManifest)>)
    ensures
        exists|p: Seq<int>| stably_sorted_by_id(scanned@, sorted@, p),
{
    let ghost src = scanned@;
    let n = scanned.len();
    let mut items: Vec<(i32, String, usize)> = Vec::new();
    let mut i: usize = 0;
    while i < n
        invariant
            n == src.len(),
            src == scanned@,
            i <= n,
            items@.len() == i,
            forall|k: int| 0 <= k < i ==> #[trigger] items_view(items@)[k] == (0i32, src[k].1.id@, k as usize),
        decreases n - i,
    {
        let ghost before = items_view(items@);
        let id = scanned[i].1.id.clone();
        items.push((0, id, i));
        assert(items_view(items@) =~= before.push((0i32, src[i as int].1.id@, i)));
        i = i + 1;
    }
    let ghost iv = items_view(items@);
    assert(distinct_items(iv)) by {
        assert forall|a: int, b: int| 0 <= a < b < iv.len() implies #[trigger] iv[a] != #[trigger] iv[b] by {
            assert(iv[a].2 == a && iv[b].2 == b);
        }
    }
    let sorted_items = sort_by_order_id(items);
    let ghost sv = items_view(sorted_items@);
    assert forall|j: int| 0 <= j < sv.len() implies 0 <= (#[trigger] sv[j]).2 < n && sv[j] == iv[sv[j].2 as int] by {
        assert(sv.to_set().contains(sv[j]));
        assert(iv.to_set().contains(sv[j]));
        let w = choose|w: int| 0 <= w < iv.len() && iv[w] == sv[j];
    }
    let mut slots: Vec<Option<(String, PluginManifest)>> = Vec::new();
    let mut rest = scanned;
    while rest.len() > 0
        invariant
            rest@.len() + slots@.len() == n,
            forall|k: int| 0 <= k < rest@.len() ==> #[trigger] rest@[k] == src[k],
            forall|k: int| 0 <= k < slots@.len() ==> #[trigger] slots@[k] == Some(src[n - 1 - k]),
        decreases rest@.len(),
    {
        let m = rest.pop().unwrap();
        slots.push(Some(m));
    }
    let mut out: Vec<(String, PluginManifest)> = Vec::new();
    let mut j: usize = 0;
    while j < sorted_items.len()
        invariant
            sorted_items@.len() == n,
            sv == items_view(sorted_items@),
            sorted_by_order_id(sv),
            slots@.len() == n,
            j <= n,
            out@.len() == j,
            forall|t: int| 0 <= t < sv.len() ==> 0 <= (#[trigger] sv[t]).2 < n && sv[t] == iv[sv[t].2 as int],
            forall|t: int| 0 <= t < n ==> #[trigger] iv[t] == (0i32, src[t].1.id@, t as usize),
            forall|t: int| j <= t < n ==> slots@[n - 1 - sv[t].2] == Some(src[sv[t].2 as int]),
            forall|t: int| 0 <= t < j ==> #[trigger] out@[t] == src[sv[t].2 as int],
        decreases n - j,
    {
        let idx = sorted_items[j].2;
        assert(sv[j as int].2 == idx);
        let slot = n - 1 - idx;
        let mut taken: Option<(String, PluginManifest)> = None;
        std::mem::swap(&mut taken, &mut slots[slot]);
        proof {
            assert forall|t: int| j < t < n implies slots@[n - 1 - sv[t].2] == Some(src[sv[t].2 as int]) by {
                if sv[t].2 == sv[j as int].2 {
                    assert(sv[t] == iv[sv[t].2 as int]);
                    assert(sv[j as int] == iv[sv[j as int].2 as int]);
                    lemma_order_id_lt_distinct(sv[j as int], sv[t]);
                }
            }
        }
        out.push(taken.unwrap());
        j = j + 1;
    }
    proof {
        let p = Seq::new(n as nat, |k: int| sv[k].2 as int);
        assert forall|a: int, b: int| 0 <= a < b < out@.len() implies #[trigger] p[a] != #[trigger] p[b] by {
            assert(order_id_lt(sv[a], sv[b]));
            if p[a] == p[b] {
                assert(sv[a] == iv[p[a]] && sv[b] == iv[p[b]]);
                lemma_order_id_lt_distinct(sv[a], sv[b]);
            }
        }
        assert forall|a: int, b: int| 0 <= a < b < out@.len() implies seq_lt((#[trigger] out@[a]).1.id@, (#[trigger] out@[b]).1.id@) || (
            out@[a].1.id@ == out@[b].1.id@ && p[a] < p[b]) by {
            assert(order_id_lt(sv[a], sv[b]));
            assert(sv[a] == iv[sv[a].2 as int] && sv[b] == iv[sv[b].2 as int]);
        }
        assert(stably_sorted_by_id(src, out@, p));
    }
    out
}

} // verus!
