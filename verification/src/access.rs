//! What a plugin may do: the checks made before a plugin uses a host API or
//! opens a surface, the directory rules of registrations, and the checks
//! before the registry is changed from the front end.

use vstd::prelude::*;
use vstd::string::*;

use crate::manifest::{registration, registration_of, PluginManifest};
use crate::paths::{is_safe_relative_path, is_single_directory_name, safe_relative_path,
    single_directory_name};
use crate::registry::{PluginEntryState, PluginRuntimeConfig};
use crate::text::{chars_equal, owned, trim, trimmed};

verus! {

/// The index of the first manifest with id `id`, searching from `i`.
pub open spec fn find_manifest_from(ms: Seq<PluginManifest>, id: Seq<char>, i: int) -> Option<int>
    decreases ms.len() - i,
{
    if i < 0 || i >= ms.len() {
        None
    } else if ms[i].id@ == id {
        Some(i)
    } else {
        find_manifest_from(ms, id, i + 1)
    }
}

pub open spec fn find_manifest(ms: Seq<PluginManifest>, id: Seq<char>) -> Option<int> {
    find_manifest_from(ms, id, 0)
}

proof fn lemma_find_manifest_bounds(ms: Seq<PluginManifest>, id: Seq<char>, i: int)
    ensures
        find_manifest_from(ms, id, i) matches Some(k) ==> i <= k < ms.len() && ms[k].id@ == id,
    decreases ms.len() - i,
{
    if 0 <= i < ms.len() && ms[i].id@ != id {
        lemma_find_manifest_bounds(ms, id, i + 1);
    }
}

/// The position of the first manifest with id `id`.
pub fn position_of_manifest(manifests: &Vec<PluginManifest>, id: &str) -> (r: Option<usize>)
    ensures
        match r {
            Some(i) => find_manifest(manifests@, id@) == Some(i as int),
            None => find_manifest(manifests@, id@) is None,
        },
        r matches Some(i) ==> i < manifests@.len(),
{
    let mut i: usize = 0;
    while i < manifests.len()
        invariant
            i <= manifests@.len(),
            find_manifest(manifests@, id@) == find_manifest_from(manifests@, id@, i as int),
        decreases manifests@.len() - i,
    {
        if chars_equal(manifests[i].id.as_str(), id) {
            return Some(i);
        }
        i = i + 1;
    }
    None
}

/// The permission list holds `permission`.
pub open spec fn grants(permissions: Seq<String>, permission: Seq<char>) -> bool {
    exists|k: int| 0 <= k < permissions.len() && (#[trigger] permissions[k])@ == permission
}

fn has_permission(permissions: &Vec<String>, permission: &str) -> (r: bool)
    ensures
        r == grants(permissions@, permission@),
{
    let mut k: usize = 0;
    while k < permissions.len()
        invariant
            k <= permissions@.len(),
            forall|j: int| 0 <= j < k ==> (#[trigger] permissions@[j])@ != permission@,
        decreases permissions@.len() - k,
    {
        if chars_equal(permissions[k].as_str(), permission) {
            return true;
        }
        k = k + 1;
    }
    false
}

pub open spec fn plugin_not_found_message(id: Seq<char>) -> Seq<char> {
    "找不到插件："@ + id
}

pub open spec fn not_enabled_message(id: Seq<char>) -> Seq<char> {
    "插件 "@ + id + " 未启用"@
}

pub open spec fn missing_permission_message(id: Seq<char>, permission: Seq<char>) -> Seq<char> {
    "插件 "@ + id + " 没有 "@ + permission + " 权限"@
}

/// The error, if any, of a plugin `id` that needs `requirement` of its
/// manifest among the registered `manifests`: unknown plugin, then the
/// missing requirement (`missing`), then a disabled registration.
pub open spec fn access_error(
    manifests: Seq<PluginManifest>,
    registry: Map<Seq<char>, crate::registry::EntrySpec>,
    id: Seq<char>,
    requirement: spec_fn(PluginManifest) -> bool,
    missing: Seq<char>,
) -> Option<Seq<char>> {
    match find_manifest(manifests, id) {
        None => Some(plugin_not_found_message(id)),
        Some(i) => if !requirement(manifests[i]) {
            Some(missing)
        } else if !registration_of(registry, id).enabled {
            Some(not_enabled_message(id))
        } else {
            None
        },
    }
}

pub open spec fn result_matches(r: Result<(), String>, error: Option<Seq<char>>) -> bool {
    match (r, error) {
        (Ok(()), None) => true,
        (Err(e), Some(m)) => e@ == m,
        _ => false,
    }
}

/// A plugin may use a host API only when it is registered, declares the
/// permission in its manifest and is enabled.
pub fn validate_plugin_permission(
    manifests: &Vec<PluginManifest>,
    runtime: &PluginRuntimeConfig,
    plugin_id: &str,
    permission: &str,
) -> (r: Result<(), String>)
    ensures
        result_matches(
            r,
            access_error(
                manifests@,
                runtime@,
                plugin_id@,
                |m: PluginManifest| grants(m.permissions@, permission@),
                missing_permission_message(plugin_id@, permission@),
            ),
        ),
{
    let index = match position_of_manifest(manifests, plugin_id) {
        Some(i) => i,
        None => {
            let mut message = owned("找不到插件：");
            message.append(plugin_id);
            return Err(message);
        },
    };
    if !has_permission(&manifests[index].permissions, permission) {
        let mut message = owned("插件 ");
        message.append(plugin_id);
        message.append(" 没有 ");
        message.append(permission);
        message.append(" 权限");
        return Err(message);
    }
    let (enabled, _) = registration(runtime, plugin_id);
    if !enabled {
        let mut message = owned("插件 ");
        message.append(plugin_id);
        message.append(" 未启用");
        return Err(message);
    }
    Ok(())
}

/// A plugin's popup may open only when it is registered, has a popup page
/// and is enabled.
pub fn validate_popup_plugin(
    manifests: &Vec<PluginManifest>,
    runtime: &PluginRuntimeConfig,
    plugin_id: &str,
) -> (r: Result<(), String>)
    ensures
        result_matches(
            r,
            access_error(
                manifests@,
                runtime@,
                plugin_id@,
                |m: PluginManifest| m.popup is Some,
                "插件 "@ + plugin_id@ + " 没有 popup"@,
            ),
        ),
{
    let index = match position_of_manifest(manifests, plugin_id) {
        Some(i) => i,
        None => {
            let mut message = owned("找不到插件：");
            message.append(plugin_id);
            return Err(message);
        },
    };
    if manifests[index].popup.is_none() {
        let mut message = owned("插件 ");
        message.append(plugin_id);
        message.append(" 没有 popup");
        return Err(message);
    }
    let (enabled, _) = registration(runtime, plugin_id);
    if !enabled {
        let mut message = owned("插件 ");
        message.append(plugin_id);
        message.append(" 未启用");
        return Err(message);
    }
    Ok(())
}

/// A plugin's settings window may open only when it is registered, has a
/// settings page and is enabled.
pub fn validate_settings_plugin(
    manifests: &Vec<PluginManifest>,
    runtime: &PluginRuntimeConfig,
    plugin_id: &str,
) -> (r: Result<(), String>)
    ensures
        result_matches(
            r,
            access_error(
                manifests@,
                runtime@,
                plugin_id@,
                |m: PluginManifest| m.settings is Some,
                "插件 "@ + plugin_id@ + " 没有 settings"@,
            ),
        ),
{
    let index = match position_of_manifest(manifests, plugin_id) {
        Some(i) => i,
        None => {
            let mut message = owned("找不到插件：");
            message.append(plugin_id);
            return Err(message);
        },
    };
    if manifests[index].settings.is_none() {
        let mut message = owned("插件 ");
        message.append(plugin_id);
        message.append(" 没有 settings");
        return Err(message);
    }
    let (enabled, _) = registration(runtime, plugin_id);
    if !enabled {
        let mut message = owned("插件 ");
        message.append(plugin_id);
        message.append(" 未启用");
        return Err(message);
    }
    Ok(())
}

/// The id of the one plugin that may read system metrics.
pub open spec fn system_monitor_id() -> Seq<char> {
    "system-monitor"@
}

pub open spec fn system_metrics_refusal() -> Seq<char> {
    "system.metrics 仅提供给内置系统资源监视插件"@
}

/// The error, if any, of a request for system metrics: only the built-in
/// `system-monitor` plugin, registered, declaring `system.metrics` and
/// enabled, may read them.
pub open spec fn system_metrics_error(
    manifests: Seq<PluginManifest>,
    registry: Map<Seq<char>, crate::registry::EntrySpec>,
    id: Seq<char>,
) -> Option<Seq<char>> {
    if id != system_monitor_id() {
        Some(system_metrics_refusal())
    } else {
        match access_error(
            manifests,
            registry,
            id,
            |m: PluginManifest| grants(m.permissions@, "system.metrics"@),
            missing_permission_message(id, "system.metrics"@),
        ) {
            Some(e) => Some(e),
            None => if !manifests[find_manifest(manifests, id)->0].builtin {
                Some(system_metrics_refusal())
            } else {
                None
            },
        }
    }
}

/// Checks a request for system metrics.
pub fn validate_system_metrics(
    manifests: &Vec<PluginManifest>,
    runtime: &PluginRuntimeConfig,
    plugin_id: &str,
) -> (r: Result<(), String>)
    ensures
        result_matches(r, system_metrics_error(manifests@, runtime@, plugin_id@)),
{
    proof {
        reveal_strlit("system-monitor");
    }
    if !chars_equal(plugin_id, "system-monitor") {
        return Err(owned("system.metrics 仅提供给内置系统资源监视插件"));
    }
    match validate_plugin_permission(manifests, runtime, plugin_id, "system.metrics") {
        Err(e) => Err(e),
        Ok(()) => {
            let index = position_of_manifest(manifests, plugin_id);
            match index {
                Some(i) => {
                    if manifests[i].builtin {
                        Ok(())
                    } else {
                        Err(owned("system.metrics 仅提供给内置系统资源监视插件"))
                    }
                },
                None => Err(owned("找不到插件：system-monitor")),
            }
        },
    }
}

pub open spec fn invalid_directory_message(id: Seq<char>, directory: Seq<char>) -> Seq<char> {
    "插件 "@ + id + " 的目录配置无效："@ + directory
}

/// A registered directory names one directory inside the plugin folder
/// (after trimming); the trimmed name is what is joined to the folder.
pub open spec fn directory_result(id: Seq<char>, directory: Seq<char>) -> Result<Seq<char>, Seq<char>> {
    let t = trimmed(directory);
    if t.len() == 0 || !is_single_directory_name(t) {
        Err(invalid_directory_message(id, directory))
    } else {
        Ok(t)
    }
}

pub open spec fn string_result_matches(r: Result<String, String>, expected: Result<Seq<char>, Seq<char>>) -> bool {
    match (r, expected) {
        (Ok(v), Ok(w)) => v@ == w,
        (Err(e), Err(f)) => e@ == f,
        _ => false,
    }
}

/// Checks the directory registered for plugin `id`.
pub fn validated_directory(id: &str, directory: &str) -> (r: Result<String, String>)
    ensures
        string_result_matches(r, directory_result(id@, directory@)),
{
    let t = trim(directory);
    if t.as_str().unicode_len() == 0 || !single_directory_name(t.as_str()) {
        let mut message = owned("插件 ");
        message.append(id);
        message.append(" 的目录配置无效：");
        message.append(directory);
        return Err(message);
    }
    Ok(t)
}

/// The directory of a plugin's own configuration file: the plugin must be
/// registered and its directory valid.
pub fn plugin_config_directory(runtime: &PluginRuntimeConfig, plugin_id: &str) -> (r: Result<
    String,
    String,
>)
    ensures
        string_result_matches(
            r,
            if runtime@.contains_key(plugin_id@) {
                directory_result(plugin_id@, runtime@[plugin_id@].directory)
            } else {
                Err("主配置中没有插件："@ + plugin_id@)
            },
        ),
{
    match runtime.get(plugin_id) {
        Some(entry) => validated_directory(plugin_id, entry.directory.as_str()),
        None => {
            let mut message = owned("主配置中没有插件：");
            message.append(plugin_id);
            Err(message)
        },
    }
}

/// The directory from which a plugin's files are served: the plugin must be
/// registered, enabled, and its directory valid.
pub fn asset_plugin_directory(runtime: &PluginRuntimeConfig, plugin_id: &str) -> (r: Result<
    String,
    String,
>)
    ensures
        string_result_matches(
            r,
            if !runtime@.contains_key(plugin_id@) {
                Err("找不到已登记插件："@ + plugin_id@)
            } else if !runtime@[plugin_id@].enabled {
                Err(not_enabled_message(plugin_id@))
            } else {
                directory_result(plugin_id@, runtime@[plugin_id@].directory)
            },
        ),
{
    match runtime.get(plugin_id) {
        Some(entry) => {
            if !entry.enabled {
                let mut message = owned("插件 ");
                message.append(plugin_id);
                message.append(" 未启用");
                return Err(message);
            }
            validated_directory(plugin_id, entry.directory.as_str())
        },
        None => {
            let mut message = owned("找不到已登记插件：");
            message.append(plugin_id);
            Err(message)
        },
    }
}

/// The manifest found in the plugin's directory must carry the requested id.
pub fn check_manifest_id(manifest_id: &str, requested: &str) -> (r: Result<(), String>)
    ensures
        result_matches(
            r,
            if manifest_id@ == requested@ {
                None
            } else {
                Some("插件目录中的 id="@ + manifest_id@ + " 与请求 id="@ + requested@ + " 不一致"@)
            },
        ),
{
    if chars_equal(manifest_id, requested) {
        Ok(())
    } else {
        let mut message = owned("插件目录中的 id=");
        message.append(manifest_id);
        message.append(" 与请求 id=");
        message.append(requested);
        message.append(" 不一致");
        Err(message)
    }
}

/// A plugin file path must stay inside the plugin directory.
pub fn check_plugin_path(relative: &str) -> (r: Result<(), String>)
    ensures
        result_matches(
            r,
            if is_safe_relative_path(relative@) {
                None
            } else {
                Some("插件文件路径不安全："@ + relative@)
            },
        ),
{
    if safe_relative_path(relative) {
        Ok(())
    } else {
        let mut message = owned("插件文件路径不安全：");
        message.append(relative);
        Err(message)
    }
}

/// Why a registration is skipped when the registered manifests are loaded:
/// no directory yet, or a directory that is not a single name.
pub fn registered_directory_problem(plugin_id: &str, directory: &str) -> (r: Option<String>)
    ensures
        match r {
            Some(m) => if trimmed(directory@).len() == 0 {
                m@ == "插件 "@ + plugin_id@ + " 尚未登记目录；请点击刷新按钮扫描"@
            } else {
                !is_single_directory_name(trimmed(directory@)) && m@ == "插件 "@ + plugin_id@
                    + " 的目录配置不安全："@ + trimmed(directory@)
            },
            None => trimmed(directory@).len() > 0 && is_single_directory_name(trimmed(directory@)),
        },
{
    let t = trim(directory);
    if t.as_str().unicode_len() == 0 {
        let mut message = owned("插件 ");
        message.append(plugin_id);
        message.append(" 尚未登记目录；请点击刷新按钮扫描");
        return Some(message);
    }
    if !single_directory_name(t.as_str()) {
        let mut message = owned("插件 ");
        message.append(plugin_id);
        message.append(" 的目录配置不安全：");
        message.append(t.as_str());
        return Some(message);
    }
    None
}

/// Every id in the requested order must be a registered plugin.
pub fn validate_plugin_order(known_ids: &Vec<String>, plugin_ids: &Vec<String>) -> (r: Result<
    (),
    String,
>)
    ensures
        result_matches(
            r,
            if forall|i: int|
                0 <= i < plugin_ids@.len() ==> grants(known_ids@, (#[trigger] plugin_ids@[i])@) {
                None
            } else {
                Some("插件排序中包含未知或未登记插件"@)
            },
        ),
{
    let mut i: usize = 0;
    while i < plugin_ids.len()
        invariant
            i <= plugin_ids@.len(),
            forall|j: int| 0 <= j < i ==> grants(known_ids@, (#[trigger] plugin_ids@[j])@),
        decreases plugin_ids@.len() - i,
    {
        if !has_permission(known_ids, plugin_ids[i].as_str()) {
            return Err(owned("插件排序中包含未知或未登记插件"));
        }
        i = i + 1;
    }
    Ok(())
}

/// Turns a registered plugin on or off. The plugin must be among the
/// registered manifests (`known_ids`) and in the registry.
pub fn set_plugin_enabled(
    runtime: &mut PluginRuntimeConfig,
    known_ids: &Vec<String>,
    plugin_id: &str,
    enabled: bool,
) -> (r: Result<(), String>)
    ensures
        !grants(known_ids@, plugin_id@) ==> (r matches Err(e) && e@ == "找不到已登记插件："@
            + plugin_id@ + "；如刚添加插件，请先点击刷新按钮扫描"@ && final(runtime)@ == old(
        runtime)@),
        grants(known_ids@, plugin_id@) && !old(runtime)@.contains_key(plugin_id@) ==> (
        r matches Err(e) && e@ == "主配置中没有插件："@ + plugin_id@ && final(runtime)@ == old(
        runtime)@),
        grants(known_ids@, plugin_id@) && old(runtime)@.contains_key(plugin_id@) ==> (r is Ok
            && final(runtime)@ == old(runtime)@.insert(
            plugin_id@,
            crate::registry::EntrySpec {
                enabled,
                order: old(runtime)@[plugin_id@].order,
                directory: old(runtime)@[plugin_id@].directory,
            },
        )),
{
    if !has_permission(known_ids, plugin_id) {
        let mut message = owned("找不到已登记插件：");
        message.append(plugin_id);
        message.append("；如刚添加插件，请先点击刷新按钮扫描");
        return Err(message);
    }
    let updated = match runtime.get(plugin_id) {
        Some(entry) => PluginEntryState::new(enabled, entry.order, entry.directory.as_str()),
        None => {
            let mut message = owned("主配置中没有插件：");
            message.append(plugin_id);
            return Err(message);
        },
    };
    runtime.insert(owned(plugin_id), updated);
    Ok(())
}

/// No host API, popup or settings window is granted to a plugin that is
/// not enabled, not registered among the manifests, or lacks what it needs.
pub proof fn access_needs_an_enabled_registered_plugin(
    manifests: Seq<PluginManifest>,
    registry: Map<Seq<char>, crate::registry::EntrySpec>,
    id: Seq<char>,
    requirement: spec_fn(PluginManifest) -> bool,
    missing: Seq<char>,
)
    requires
        access_error(manifests, registry, id, requirement, missing) is None,
    ensures
        registry.contains_key(id) && registry[id].enabled,
        find_manifest(manifests, id) matches Some(i) && 0 <= i < manifests.len() && manifests[i].id@
            == id && requirement(manifests[i]),
{
    lemma_find_manifest_bounds(manifests, id, 0);
}

/// System metrics are granted only to the built-in `system-monitor` plugin,
/// and only when it declares `system.metrics` and is enabled.
pub proof fn system_metrics_only_for_the_builtin_monitor(
    manifests: Seq<PluginManifest>,
    registry: Map<Seq<char>, crate::registry::EntrySpec>,
    id: Seq<char>,
)
    requires
        system_metrics_error(manifests, registry, id) is None,
    ensures
        id == system_monitor_id(),
        registry.contains_key(id) && registry[id].enabled,
        find_manifest(manifests, id) matches Some(i) && 0 <= i < manifests.len()
            && manifests[i].builtin && grants(manifests[i].permissions@, "system.metrics"@),
{
    lemma_find_manifest_bounds(manifests, id, 0);
}

} // verus!
