use tbwidget::logging::{log_file_name, storage_change_log};
use tbwidget::startup::{
    should_copy_file, should_migrate_config, startup_change_result, startup_command,
    startup_enabled_from_query,
};

#[test]
fn startup_value_is_detected_in_the_query_output() {
    let output = "HKEY_CURRENT_USER\\...\\Run\r\n    TBWidget    REG_SZ    \"C:\\w.exe\"\r\n";
    assert!(startup_enabled_from_query(true, output));
    assert!(!startup_enabled_from_query(false, output));
    assert!(!startup_enabled_from_query(true, "ERROR: not found"));
    assert_eq!(startup_command("C:\\Apps\\tbwidget.exe"), "\"C:\\Apps\\tbwidget.exe\"");
    assert_eq!(startup_change_result(false, true).unwrap_err(), "写入开机启动项失败");
    assert!(startup_change_result(false, false).is_ok());
    assert!(startup_change_result(true, true).is_ok());
}

#[test]
fn first_run_migration_decisions() {
    assert!(should_copy_file(false, true, false));
    assert!(!should_copy_file(true, true, false));
    assert!(!should_copy_file(false, false, false));
    assert!(!should_copy_file(false, true, true));
    assert!(should_migrate_config(false, true));
    assert!(!should_migrate_config(true, true));
    assert_eq!(log_file_name("20260805"), "20260805.log");
}

#[test]
fn storage_changes_are_logged_by_key() {
    assert_eq!(storage_change_log("usageCache"), ("DEBUG", "用量缓存写入"));
    assert_eq!(storage_change_log("settings"), ("ACTION", "设置修改"));
    assert_eq!(storage_change_log("other"), ("ACTION", "配置修改"));
}
