use tbwidget::access::{
    asset_plugin_directory, check_manifest_id, check_plugin_path, plugin_config_directory,
    registered_directory_problem, set_plugin_enabled, validate_plugin_order,
    validate_plugin_permission, validate_popup_plugin, validate_settings_plugin,
    validate_system_metrics, validated_directory,
};
use tbwidget::manifest::{
    build_descriptors, sort_scanned_manifests, validate_manifest, PluginManifest,
};
use tbwidget::paths::{classify_user_path, UserPath};
use tbwidget::plugins::{apply_plugin_order, reconcile_scanned_plugins};
use tbwidget::registry::{PluginEntryState, PluginRuntimeConfig};

fn manifest(id: &str) -> PluginManifest {
    PluginManifest {
        manifest_version: 2,
        id: id.to_string(),
        name: format!("{id} name"),
        description: String::new(),
        version: "1.0.0".to_string(),
        panel: Some("panel.html".to_string()),
        popup: None,
        settings: None,
        permissions: Vec::new(),
        builtin: false,
    }
}

fn entry(enabled: bool, order: i32, directory: &str) -> PluginEntryState {
    PluginEntryState::new(enabled, order, directory)
}

#[test]
fn startup_scan_adds_new_plugins_disabled_and_preserves_existing_state() {
    let mut runtime = PluginRuntimeConfig::default();
    runtime.insert(
        "existing".to_string(),
        PluginEntryState {
            enabled: true,
            order: 4,
            directory: "old-directory".to_string(),
        },
    );

    let added = reconcile_scanned_plugins(
        &mut runtime,
        vec![
            ("existing".to_string(), "existing-directory".to_string()),
            ("new-plugin".to_string(), "new-directory".to_string()),
        ],
    );

    assert_eq!(added, 1);
    let existing = runtime.get("existing").unwrap();
    assert!(existing.enabled);
    assert_eq!(existing.order, 4);
    assert_eq!(existing.directory, "existing-directory");

    let new_plugin = runtime.get("new-plugin").unwrap();
    assert!(!new_plugin.enabled);
    assert_eq!(new_plugin.order, 5);
    assert_eq!(new_plugin.directory, "new-directory");
}

#[test]
fn reconcile_twice_adds_nothing_the_second_time() {
    let mut runtime = PluginRuntimeConfig::new();
    let scan = vec![
        ("a".to_string(), "dir-a".to_string()),
        ("b".to_string(), "dir-b".to_string()),
    ];
    assert_eq!(reconcile_scanned_plugins(&mut runtime, scan.clone()), 2);
    assert_eq!(runtime.get("a").unwrap().order, 0);
    assert_eq!(runtime.get("b").unwrap().order, 1);
    assert_eq!(reconcile_scanned_plugins(&mut runtime, scan), 0);
    assert_eq!(runtime.len(), 2);
    assert_eq!(runtime.get("b").unwrap().order, 1);
}

#[test]
fn reorder_puts_requested_plugins_first_and_keeps_the_rest_in_order() {
    let mut runtime = PluginRuntimeConfig::new();
    runtime.insert("a".to_string(), entry(true, 0, "a"));
    runtime.insert("b".to_string(), entry(true, 1, "b"));
    runtime.insert("c".to_string(), entry(false, 2, "c"));
    runtime.insert("d".to_string(), entry(false, 3, "d"));
    apply_plugin_order(&mut runtime, &vec!["c".to_string(), "a".to_string()]);
    assert_eq!(runtime.get("c").unwrap().order, 0);
    assert_eq!(runtime.get("a").unwrap().order, 1);
    assert_eq!(runtime.get("b").unwrap().order, 2);
    assert_eq!(runtime.get("d").unwrap().order, 3);
    assert!(runtime.get("a").unwrap().enabled);
}

#[test]
fn manifest_validation_rejects_other_versions_and_bad_ids() {
    let mut m = manifest("demo");
    assert!(validate_manifest(&m, "plugins/demo").is_ok());
    m.manifest_version = 1;
    assert_eq!(
        validate_manifest(&m, "plugins/demo").unwrap_err(),
        "插件 demo 使用不支持的 manifestVersion=1，当前仅支持 2"
    );
    for bad in ["", "  ", "a/b", "a\\b", ".", ".."] {
        let m = manifest(bad);
        assert_eq!(
            validate_manifest(&m, "plugins/x").unwrap_err(),
            "插件目录 plugins/x 的 id 无效"
        );
    }
}

#[test]
fn descriptors_are_listed_by_order_then_id() {
    let mut runtime = PluginRuntimeConfig::new();
    runtime.insert("alpha".to_string(), entry(true, 2, "alpha"));
    runtime.insert("beta".to_string(), entry(false, 1, "beta"));
    let manifests = vec![manifest("alpha"), manifest("beta"), manifest("gamma")];
    let descriptors = build_descriptors(manifests, &runtime);
    let ids: Vec<&str> = descriptors.iter().map(|d| d.id.as_str()).collect();
    assert_eq!(ids, vec!["gamma", "beta", "alpha"]);
    assert_eq!(descriptors[0].order, 0);
    assert!(!descriptors[0].enabled);
    assert!(descriptors[2].enabled);
    assert_eq!(descriptors[1].name, "beta name");
}

#[test]
fn scanned_manifests_are_sorted_by_id_stably() {
    let scanned = vec![
        ("dir-c".to_string(), manifest("c")),
        ("dir-a1".to_string(), manifest("a")),
        ("dir-b".to_string(), manifest("b")),
        ("dir-a2".to_string(), manifest("a")),
    ];
    let sorted = sort_scanned_manifests(scanned);
    let dirs: Vec<&str> = sorted.iter().map(|(d, _)| d.as_str()).collect();
    assert_eq!(dirs, vec!["dir-a1", "dir-a2", "dir-b", "dir-c"]);
}

#[test]
fn permission_checks_follow_registration_and_manifest() {
    let mut runtime = PluginRuntimeConfig::new();
    runtime.insert("demo".to_string(), entry(true, 0, "demo"));
    runtime.insert("off".to_string(), entry(false, 1, "off"));
    let mut demo = manifest("demo");
    demo.permissions = vec!["storage".to_string(), "http.request".to_string()];
    let mut off = manifest("off");
    off.permissions = vec!["storage".to_string()];
    let manifests = vec![demo, off];
    assert!(validate_plugin_permission(&manifests, &runtime, "demo", "storage").is_ok());
    assert_eq!(
        validate_plugin_permission(&manifests, &runtime, "demo", "fs.read").unwrap_err(),
        "插件 demo 没有 fs.read 权限"
    );
    assert_eq!(
        validate_plugin_permission(&manifests, &runtime, "off", "storage").unwrap_err(),
        "插件 off 未启用"
    );
    assert_eq!(
        validate_plugin_permission(&manifests, &runtime, "ghost", "storage").unwrap_err(),
        "找不到插件：ghost"
    );
    assert_eq!(
        validate_popup_plugin(&manifests, &runtime, "demo").unwrap_err(),
        "插件 demo 没有 popup"
    );
    assert_eq!(
        validate_settings_plugin(&manifests, &runtime, "demo").unwrap_err(),
        "插件 demo 没有 settings"
    );
}

#[test]
fn popup_and_settings_need_their_pages() {
    let mut runtime = PluginRuntimeConfig::new();
    runtime.insert("demo".to_string(), entry(true, 0, "demo"));
    let mut demo = manifest("demo");
    demo.popup = Some("popup.html".to_string());
    demo.settings = Some("settings.html".to_string());
    let manifests = vec![demo];
    assert!(validate_popup_plugin(&manifests, &runtime, "demo").is_ok());
    assert!(validate_settings_plugin(&manifests, &runtime, "demo").is_ok());
}

#[test]
fn system_metrics_is_only_for_the_builtin_monitor() {
    let mut runtime = PluginRuntimeConfig::new();
    runtime.insert("system-monitor".to_string(), entry(true, 0, "system-monitor"));
    runtime.insert("other".to_string(), entry(true, 1, "other"));
    let mut monitor = manifest("system-monitor");
    monitor.permissions = vec!["system.metrics".to_string()];
    monitor.builtin = true;
    let mut other = manifest("other");
    other.permissions = vec!["system.metrics".to_string()];
    other.builtin = true;
    let manifests = vec![monitor.clone(), other];
    assert!(validate_system_metrics(&manifests, &runtime, "system-monitor").is_ok());
    assert_eq!(
        validate_system_metrics(&manifests, &runtime, "other").unwrap_err(),
        "system.metrics 仅提供给内置系统资源监视插件"
    );
    monitor.builtin = false;
    let manifests = vec![monitor];
    assert_eq!(
        validate_system_metrics(&manifests, &runtime, "system-monitor").unwrap_err(),
        "system.metrics 仅提供给内置系统资源监视插件"
    );
}

#[test]
fn registered_directories_must_be_single_names() {
    assert_eq!(validated_directory("demo", " demo ").unwrap(), "demo");
    assert_eq!(validated_directory("demo", "demo/").unwrap(), "demo/");
    for bad in ["", "  ", "..", ".", "a/b", "/abs", "C:x", "\\share"] {
        assert_eq!(
            validated_directory("demo", bad).unwrap_err(),
            format!("插件 demo 的目录配置无效：{bad}")
        );
    }
    let mut runtime = PluginRuntimeConfig::new();
    runtime.insert("on".to_string(), entry(true, 0, "on-dir"));
    runtime.insert("off".to_string(), entry(false, 1, "off-dir"));
    assert_eq!(plugin_config_directory(&runtime, "on").unwrap(), "on-dir");
    assert_eq!(plugin_config_directory(&runtime, "off").unwrap(), "off-dir");
    assert_eq!(
        plugin_config_directory(&runtime, "none").unwrap_err(),
        "主配置中没有插件：none"
    );
    assert_eq!(asset_plugin_directory(&runtime, "on").unwrap(), "on-dir");
    assert_eq!(asset_plugin_directory(&runtime, "off").unwrap_err(), "插件 off 未启用");
    assert_eq!(
        asset_plugin_directory(&runtime, "none").unwrap_err(),
        "找不到已登记插件：none"
    );
    assert_eq!(
        registered_directory_problem("p", "  ").unwrap(),
        "插件 p 尚未登记目录；请点击刷新按钮扫描"
    );
    assert_eq!(
        registered_directory_problem("p", " ../x ").unwrap(),
        "插件 p 的目录配置不安全：../x"
    );
    assert!(registered_directory_problem("p", "ok").is_none());
}

#[test]
fn plugin_paths_must_stay_inside_the_plugin() {
    assert!(check_plugin_path("index.html").is_ok());
    assert!(check_plugin_path("assets/app.js").is_ok());
    assert!(check_plugin_path("a/..b/c").is_ok());
    for bad in ["../secret", "a/../../b", "/etc/passwd", "\\x", "C:\\x", "a\\..\\b", ".."] {
        assert_eq!(
            check_plugin_path(bad).unwrap_err(),
            format!("插件文件路径不安全：{bad}")
        );
    }
    assert!(check_manifest_id("demo", "demo").is_ok());
    assert_eq!(
        check_manifest_id("demo", "other").unwrap_err(),
        "插件目录中的 id=demo 与请求 id=other 不一致"
    );
}

#[test]
fn order_and_enable_requests_need_registered_plugins() {
    let known = vec!["a".to_string(), "b".to_string()];
    assert!(validate_plugin_order(&known, &vec!["b".to_string(), "a".to_string()]).is_ok());
    assert_eq!(
        validate_plugin_order(&known, &vec!["a".to_string(), "x".to_string()]).unwrap_err(),
        "插件排序中包含未知或未登记插件"
    );
    let mut runtime = PluginRuntimeConfig::new();
    runtime.insert("a".to_string(), entry(false, 3, "dir-a"));
    assert!(set_plugin_enabled(&mut runtime, &known, "a", true).is_ok());
    let a = runtime.get("a").unwrap();
    assert!(a.enabled);
    assert_eq!(a.order, 3);
    assert_eq!(a.directory, "dir-a");
    assert_eq!(
        set_plugin_enabled(&mut runtime, &known, "x", true).unwrap_err(),
        "找不到已登记插件：x；如刚添加插件，请先点击刷新按钮扫描"
    );
    assert_eq!(
        set_plugin_enabled(&mut runtime, &known, "b", true).unwrap_err(),
        "主配置中没有插件：b"
    );
}

#[test]
fn user_paths_expand_the_home_directory() {
    assert_eq!(classify_user_path("  ").unwrap_err(), "文件路径不能为空");
    assert_eq!(classify_user_path(" ~ ").unwrap(), UserPath::Home);
    assert_eq!(classify_user_path("~/notes.txt").unwrap(), UserPath::UnderHome("notes.txt".to_string()));
    assert_eq!(classify_user_path("~\\a\\b").unwrap(), UserPath::UnderHome("a\\b".to_string()));
    assert_eq!(classify_user_path("~user/x").unwrap(), UserPath::Plain("~user/x".to_string()));
    assert_eq!(classify_user_path(" C:\\data.txt ").unwrap(), UserPath::Plain("C:\\data.txt".to_string()));
}

#[test]
fn new_plugins_are_numbered_after_the_largest_order_in_first_seen_order() {
    let mut runtime = PluginRuntimeConfig::new();
    runtime.insert("known".to_string(), entry(true, 7, "known"));
    runtime.insert("low".to_string(), entry(false, 2, "low"));
    let added = reconcile_scanned_plugins(
        &mut runtime,
        vec![
            ("zeta".to_string(), "zeta-1".to_string()),
            ("known".to_string(), "known-2".to_string()),
            ("alpha".to_string(), "alpha".to_string()),
            ("zeta".to_string(), "zeta-2".to_string()),
        ],
    );
    assert_eq!(added, 2);
    assert_eq!(runtime.get("zeta").unwrap().order, 8);
    assert_eq!(runtime.get("zeta").unwrap().directory, "zeta-2");
    assert_eq!(runtime.get("alpha").unwrap().order, 9);
    assert_eq!(runtime.get("known").unwrap().order, 7);
    assert_eq!(runtime.get("low").unwrap().order, 2);
}
