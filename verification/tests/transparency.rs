use std::collections::HashSet;

use tbwidget::transparency::{
    apply_report, backend_name, tap_command_outcome, tap_init_followup, EndpointScan,
    TapInitFollowup,
};

use tbwidget::transparency::{
    accent_policy, backend_for_build, candidates_summary, helper_file_action, helper_file_name,
    helper_window_belongs_to_explorer, mode_name, reapply_trigger, should_initialize_xaml_tap,
    should_start_recovery_attempt, tap_command_succeeded, tap_dll_fingerprint, tap_init_claim,
    tap_message_name, to_wide, visual_diag_endpoint_names, worker_message_action,
    xaml_library_path, xaml_tap_plan, HelperFileAction, HelperFileState, RecoveryAttemptState,
    RecoveryLoop, RecoveryOutcome, RecoveryVerdict, TapInitClaim, TaskbarTransparencyMode,
    TransparencyBackend, WorkerAction, XamlTapPlan,
};

#[test]
fn build_26100_xaml_uses_tap() {
    assert_eq!(backend_for_build(26_100, true), TransparencyBackend::XamlTap);
}

#[test]
fn build_19045_uses_classic_accent() {
    assert_eq!(backend_for_build(19_045, false), TransparencyBackend::ClassicAccent);
}

#[test]
fn classic_shell_on_new_build_stays_classic() {
    assert_eq!(backend_for_build(26_100, false), TransparencyBackend::ClassicAccent);
}

#[test]
fn visual_diag_names_are_bounded_and_unique() {
    let names = visual_diag_endpoint_names();
    assert_eq!(names.len(), 16);
    assert_eq!(names.first().unwrap(), "VisualDiagConnection1");
    assert_eq!(names.last().unwrap(), "VisualDiagConnection16");
    let unique = names.iter().collect::<HashSet<_>>();
    assert_eq!(unique.len(), names.len());
}

#[test]
fn xaml_tap_is_only_initialized_for_clear_without_a_helper() {
    assert!(!should_initialize_xaml_tap(TaskbarTransparencyMode::Off, false));
    assert!(should_initialize_xaml_tap(TaskbarTransparencyMode::Clear, false));
    assert!(!should_initialize_xaml_tap(TaskbarTransparencyMode::Clear, true));
}

#[test]
fn worker_routes_only_required_environment_messages() {
    let taskbar_created = 0xc001;
    assert_eq!(
        reapply_trigger(taskbar_created, 0, taskbar_created),
        Some("TaskbarCreated")
    );
    assert_eq!(reapply_trigger(0x007e, 0, taskbar_created), Some("WM_DISPLAYCHANGE"));
    assert_eq!(
        reapply_trigger(0x001a, 47, taskbar_created),
        Some("WM_SETTINGCHANGE/SPI_SETWORKAREA")
    );
    assert_eq!(reapply_trigger(0x02e0, 0, taskbar_created), Some("WM_DPICHANGED"));
    assert_eq!(reapply_trigger(0x001a, 0, taskbar_created), None);
}

#[test]
fn helper_window_must_belong_to_current_explorer() {
    assert!(helper_window_belongs_to_explorer(4_200, 4_200));
    assert!(!helper_window_belongs_to_explorer(4_199, 4_200));
    assert!(!helper_window_belongs_to_explorer(0, 4_200));
}

#[test]
fn tap_command_only_accepts_protocol_success_value() {
    assert!(tap_command_succeeded(1));
    assert!(!tap_command_succeeded(0));
    assert!(!tap_command_succeeded(2));
}

#[test]
fn recovery_retries_only_after_stale_and_never_while_inflight() {
    assert!(should_start_recovery_attempt(RecoveryAttemptState::Initial));
    assert!(!should_start_recovery_attempt(RecoveryAttemptState::InFlight));
    assert!(should_start_recovery_attempt(RecoveryAttemptState::RetryAfterStale));
}

#[test]
fn recovery_loop_gives_up_after_ten_stale_attempts() {
    let mut recovery = RecoveryLoop::new();
    let mut started = 0;
    while recovery.begin_attempt() {
        started += 1;
        assert!(!recovery.begin_attempt());
        assert_eq!(recovery.record(RecoveryOutcome::Stale), RecoveryVerdict::Retry);
    }
    assert_eq!(started, 10);
    assert_eq!(
        recovery.failure_message(),
        "任务栏组件恢复失败 stage=recover-main-window trigger=TaskbarCreated error=第 10 次检查仍在等待失效窗口释放"
    );
}

#[test]
fn recovery_loop_stops_at_the_first_failure() {
    let mut recovery = RecoveryLoop::new();
    assert_eq!(
        recovery.failure_message(),
        "任务栏组件恢复失败 stage=recover-main-window trigger=TaskbarCreated error=main 窗口仍在等待 Tauri 移除失效句柄"
    );
    assert!(recovery.begin_attempt());
    assert_eq!(
        recovery.record(RecoveryOutcome::TimedOut("timed out".to_string())),
        RecoveryVerdict::Failed
    );
    assert!(!recovery.begin_attempt());
    assert_eq!(recovery.last_error, "等待 Tauri 主线程恢复结果超时或失败：timed out");
    let mut ok = RecoveryLoop::new();
    assert!(ok.begin_attempt());
    assert_eq!(ok.record(RecoveryOutcome::Restored), RecoveryVerdict::Succeeded);
    let mut sched = RecoveryLoop::new();
    assert!(sched.begin_attempt());
    sched.record(RecoveryOutcome::ScheduleFailed("closed".to_string()));
    assert_eq!(sched.last_error, "无法调度 Tauri 主线程恢复：closed");
}

#[test]
fn modes_and_messages() {
    assert_eq!(mode_name(TaskbarTransparencyMode::Off), "off");
    assert_eq!(mode_name(TaskbarTransparencyMode::Clear), "clear");
    assert_eq!(tap_message_name(TaskbarTransparencyMode::Clear), "TBWidget.TaskbarTap.Clear");
    assert_eq!(tap_message_name(TaskbarTransparencyMode::Off), "TBWidget.TaskbarTap.Restore");
    let clear = accent_policy(TaskbarTransparencyMode::Clear);
    assert_eq!((clear.accent_state, clear.accent_flags, clear.gradient_color), (2, 2, 0));
    let off = accent_policy(TaskbarTransparencyMode::Off);
    assert_eq!((off.accent_state, off.accent_flags), (0, 0));
    assert_eq!(xaml_tap_plan(TaskbarTransparencyMode::Off, false), XamlTapPlan::Nothing);
    assert_eq!(xaml_tap_plan(TaskbarTransparencyMode::Off, true), XamlTapPlan::SendToExisting);
    assert_eq!(
        xaml_tap_plan(TaskbarTransparencyMode::Clear, false),
        XamlTapPlan::InitializeThenSend
    );
}

#[test]
fn worker_window_message_routing() {
    assert_eq!(worker_message_action(0x0010, 0, 0xc001), WorkerAction::DestroyWindow);
    assert_eq!(worker_message_action(0x0002, 0, 0xc001), WorkerAction::Quit);
    assert_eq!(worker_message_action(0x02e0, 0, 0xc001), WorkerAction::Reapply("WM_DPICHANGED"));
    assert_eq!(worker_message_action(0x0100, 0, 0xc001), WorkerAction::Default);
}

#[test]
fn helper_file_fingerprint_is_fnv1a() {
    assert_eq!(tap_dll_fingerprint(&[]), 0xcbf2_9ce4_8422_2325);
    assert_eq!(tap_dll_fingerprint(b"a"), 0xaf63_dc4c_8601_ec8c);
    assert_eq!(tap_dll_fingerprint(b"foobar"), 0x8594_4171_f739_67e8);
}

#[test]
fn helper_file_has_its_documented_name() {
    assert_eq!(helper_file_name(), "tbwidget-taskbar-tap-0.1.0.dll");
}

#[test]
fn helper_file_actions() {
    assert_eq!(helper_file_action(HelperFileState::Same, 10), HelperFileAction::Keep);
    assert_eq!(helper_file_action(HelperFileState::Different, 10), HelperFileAction::Write);
    assert_eq!(helper_file_action(HelperFileState::Missing, 10), HelperFileAction::Write);
    assert_eq!(
        helper_file_action(HelperFileState::Unreadable(Some(10)), 10),
        HelperFileAction::AssumeLocked
    );
    assert_eq!(helper_file_action(HelperFileState::Unreadable(Some(9)), 10), HelperFileAction::Fail);
    assert_eq!(helper_file_action(HelperFileState::Unreadable(None), 10), HelperFileAction::Fail);
    assert_eq!(tap_init_claim(7, 7), TapInitClaim::AlreadyRunning);
    assert_eq!(tap_init_claim(0, 7), TapInitClaim::Claim);
    assert_eq!(tap_init_claim(5, 7), TapInitClaim::Replace(5));
}

#[test]
fn wide_strings_and_library_path() {
    assert_eq!(to_wide("ab"), vec![97, 98, 0]);
    assert_eq!(to_wide("é😀"), vec![0xe9, 0xd83d, 0xde00, 0]);
    let expected: Vec<u16> = "C:\\Windows\\system32\\Windows.UI.Xaml.dll\0".encode_utf16().collect();
    let dir: Vec<u16> = "C:\\Windows\\system32".encode_utf16().collect();
    assert_eq!(xaml_library_path(&dir), expected);
    let dir_slash: Vec<u16> = "C:\\Windows\\system32\\".encode_utf16().collect();
    assert_eq!(xaml_library_path(&dir_slash), expected);
    assert_eq!(candidates_summary(&Vec::new()), "none");
    assert_eq!(
        candidates_summary(&vec!["a".to_string(), "b".to_string()]),
        "a;b"
    );
}

#[test]
fn endpoint_scan_stops_at_first_success() {
    let mut scan = EndpointScan::new();
    assert_eq!(scan.next_endpoint(), Some(0));
    scan.record(0x8007_0005u32 as i32);
    assert_eq!(scan.next_endpoint(), Some(1));
    scan.record(0);
    assert!(scan.initialized);
    assert_eq!(scan.next_endpoint(), None);
    let mut failing = EndpointScan::new();
    assert_eq!(
        failing.failure_message(42),
        "stage=InitializeXamlDiagnosticsEx ExplorerPid=42 endpoints=VisualDiagConnection1..VisualDiagConnection16 HRESULT=0x80004005"
    );
    while let Some(_) = failing.next_endpoint() {
        failing.record(-2147024891);
    }
    assert_eq!(failing.tried, 16);
    assert!(failing.failure_message(7).ends_with("HRESULT=0x80070005"));
}

#[test]
fn helper_command_results_and_reports() {
    assert!(tap_command_outcome(TaskbarTransparencyMode::Clear, 9, true, 1, 0).is_ok());
    assert_eq!(
        tap_command_outcome(TaskbarTransparencyMode::Clear, 9, false, 0, 1460).unwrap_err(),
        "stage=SendMessageTimeoutW(TBWidget.TaskbarTap.Clear) ExplorerPid=9 commandResult=0 timeout=1000ms Win32Error=1460"
    );
    assert_eq!(
        tap_command_outcome(TaskbarTransparencyMode::Off, 9, true, 2, 0).unwrap_err(),
        "stage=validate-helper-command(TBWidget.TaskbarTap.Restore) ExplorerPid=9 commandResult=2 expected=1"
    );
    assert_eq!(tap_init_followup(false, true, true), TapInitFollowup::Failed);
    assert_eq!(tap_init_followup(true, false, true), TapInitFollowup::Ignore);
    assert_eq!(
        tap_init_followup(true, true, false),
        TapInitFollowup::Succeeded { send_clear: false }
    );
    assert_eq!(backend_name(TransparencyBackend::XamlTap), "XamlTap");
    assert_eq!(
        apply_report(TransparencyBackend::ClassicAccent, 19045, "set-mode", TaskbarTransparencyMode::Clear, &Ok(())),
        "任务栏透明成功 stage=apply backend=ClassicAccent build=19045 trigger=set-mode mode=clear"
    );
    assert_eq!(
        apply_report(TransparencyBackend::XamlTap, 26100, "WM_DPICHANGED", TaskbarTransparencyMode::Off, &Err("boom".to_string())),
        "任务栏透明失败 stage=apply backend=XamlTap build=26100 trigger=WM_DPICHANGED mode=off boom"
    );
}
