//! Taskbar transparency: which backend serves a Windows build, the
//! decisions of the helper that is injected into Explorer's XAML taskbar,
//! the worker window's message routing and the recovery of the widget
//! after Explorer recreates the taskbar.

use vstd::prelude::*;
use vstd::string::*;

use crate::text::{decimal_spec, lemma_decimal_len, owned, padded_hex_upper_spec, push_decimal,
    push_padded_hex_upper};

verus! {

/// What the user asked of the taskbar background.
#[derive(Debug, Clone, Copy, PartialEq, Eq, Structural)]
pub enum TaskbarTransparencyMode {
    Off,
    Clear,
}

/// How the transparency is applied.
#[derive(Debug, Clone, Copy, PartialEq, Eq, Structural)]
pub enum TransparencyBackend {
    /// `SetWindowCompositionAttribute` with an accent policy on `Shell_TrayWnd`.
    ClassicAccent,
    /// A helper DLL injected through XAML diagnostics into the XAML taskbar.
    XamlTap,
}

/// The first build whose XAML taskbar the helper can drive.
pub const FIRST_XAML_TAP_BUILD: u32 = 22621;

pub open spec fn backend_spec(build: u32, xaml_taskbar: bool) -> TransparencyBackend {
    if build >= FIRST_XAML_TAP_BUILD && xaml_taskbar {
        TransparencyBackend::XamlTap
    } else {
        TransparencyBackend::ClassicAccent
    }
}

/// The XAML helper for a XAML taskbar on build 22621 or later, the classic
/// accent policy otherwise.
pub fn backend_for_build(build: u32, xaml_taskbar: bool) -> (backend: TransparencyBackend)
    ensures
        backend == backend_spec(build, xaml_taskbar),
        backend == TransparencyBackend::XamlTap <==> (xaml_taskbar && build >= 22_621),
{
    if build >= FIRST_XAML_TAP_BUILD && xaml_taskbar {
        TransparencyBackend::XamlTap
    } else {
        TransparencyBackend::ClassicAccent
    }
}

/// Windows 11 22H2 (build 22621) is the first build driven through the XAML
/// helper: from it on, a XAML taskbar always gets the helper; before it, or
/// without a XAML taskbar, the classic accent policy is used.
pub proof fn xaml_helper_from_build_22621_with_a_xaml_taskbar(build: u32, xaml_taskbar: bool)
    ensures
        xaml_taskbar && build >= 22_621 ==> backend_spec(build, xaml_taskbar)
            == TransparencyBackend::XamlTap,
        !xaml_taskbar || build < 22_621 ==> backend_spec(build, xaml_taskbar)
            == TransparencyBackend::ClassicAccent,
{
}

/// How many XAML diagnostics endpoints are tried.
pub const VISUAL_DIAG_ENDPOINTS: usize = 16;

/// The name of the `n`-th endpoint (counted from 1).
pub open spec fn endpoint_name(n: nat) -> Seq<char> {
    "VisualDiagConnection"@ + decimal_spec(n)
}

/// `VisualDiagConnection1` to `VisualDiagConnection16`, in that order.
pub fn visual_diag_endpoint_names() -> (names: Vec<String>)
    ensures
        names@.len() == VISUAL_DIAG_ENDPOINTS,
        forall|i: int| 0 <= i < names@.len() ==> #[trigger] names@[i]@ == endpoint_name((i + 1) as nat),
{
    let mut names: Vec<String> = Vec::new();
    let mut index: usize = 1;
    while index <= VISUAL_DIAG_ENDPOINTS
        invariant
            1 <= index <= VISUAL_DIAG_ENDPOINTS + 1,
            names@.len() == index - 1,
            forall|i: int| 0 <= i < names@.len() ==> #[trigger] names@[i]@ == endpoint_name((i + 1) as nat),
        decreases VISUAL_DIAG_ENDPOINTS + 1 - index,
    {
        let mut name = owned("VisualDiagConnection");
        push_decimal(&mut name, index as u64);
        names.push(name);
        index = index + 1;
    }
    names
}

proof fn lemma_decimal_last(n: nat)
    ensures
        decimal_spec(n).last() == crate::text::digit_char(n % 10),
        n >= 10 ==> decimal_spec(n).drop_last() == decimal_spec(n / 10),
{
    if n >= 10 {
        assert(decimal_spec(n).drop_last() =~= decimal_spec(n / 10));
    }
}

/// The decimal notation names each number once.
pub proof fn lemma_decimal_injective(a: nat, b: nat)
    requires
        decimal_spec(a) == decimal_spec(b),
    ensures
        a == b,
    decreases a,
{
    lemma_decimal_last(a);
    lemma_decimal_last(b);
    lemma_decimal_len(a);
    lemma_decimal_len(b);
    assert(a % 10 == b % 10) by {
        let x = crate::text::digit_char(a % 10);
        let y = crate::text::digit_char(b % 10);
        vstd::utf8::char_u32_cast(x, x as u32);
        vstd::utf8::char_u32_cast(y, y as u32);
    }
    if a >= 10 {
        lemma_decimal_len(a / 10);
        if b < 10 {
            assert(decimal_spec(b).len() == 1);
            assert(false);
        } else {
            lemma_decimal_injective(a / 10, b / 10);
        }
    } else if b >= 10 {
        lemma_decimal_len(b / 10);
        assert(decimal_spec(a).len() == 1);
        assert(false);
    }
}

/// The endpoint names are pairwise different, so no endpoint is tried twice.
pub proof fn visual_diag_names_are_unique(i: nat, j: nat)
    requires
        i != j,
    ensures
        endpoint_name(i) != endpoint_name(j),
{
    let p = "VisualDiagConnection"@;
    if endpoint_name(i) == endpoint_name(j) {
        assert(decimal_spec(i) =~= endpoint_name(i).skip(p.len() as int));
        assert(decimal_spec(j) =~= endpoint_name(j).skip(p.len() as int));
        lemma_decimal_injective(i, j);
    }
}

/// The helper is injected only to clear the taskbar, and only when no
/// helper window exists yet.
pub fn should_initialize_xaml_tap(mode: TaskbarTransparencyMode, helper_exists: bool) -> (r: bool)
    ensures
        r == (mode == TaskbarTransparencyMode::Clear && !helper_exists),
{
    mode == TaskbarTransparencyMode::Clear && !helper_exists
}

/// What applying a mode through the XAML helper takes.
#[derive(Debug, Clone, Copy, PartialEq, Eq, Structural)]
pub enum XamlTapPlan {
    /// No helper and none needed: the taskbar is already opaque.
    Nothing,
    /// Send the mode's command to the helper window that exists.
    SendToExisting,
    /// Inject the helper, wait for its window, then send the command.
    InitializeThenSend,
}

/// The plan for `mode` when a helper window does or does not exist.
pub fn xaml_tap_plan(mode: TaskbarTransparencyMode, helper_exists: bool) -> (plan: XamlTapPlan)
    ensures
        plan == if helper_exists {
            XamlTapPlan::SendToExisting
        } else if mode == TaskbarTransparencyMode::Clear {
            XamlTapPlan::InitializeThenSend
        } else {
            XamlTapPlan::Nothing
        },
{
    if helper_exists {
        XamlTapPlan::SendToExisting
    } else if should_initialize_xaml_tap(mode, helper_exists) {
        XamlTapPlan::InitializeThenSend
    } else {
        XamlTapPlan::Nothing
    }
}

/// A helper window counts only when it lives in the current Explorer.
pub fn helper_window_belongs_to_explorer(candidate_pid: u32, explorer_pid: u32) -> (r: bool)
    ensures
        r == (candidate_pid != 0 && candidate_pid == explorer_pid),
{
    candidate_pid != 0 && candidate_pid == explorer_pid
}

/// The helper answers 1 to a command it carried out.
pub fn tap_command_succeeded(command_result: usize) -> (r: bool)
    ensures
        r == (command_result == 1),
{
    command_result == 1
}

/// The registered message that carries `mode` to the helper.
pub fn tap_message_name(mode: TaskbarTransparencyMode) -> (name: &'static str)
    ensures
        name@ == match mode {
            TaskbarTransparencyMode::Off => "TBWidget.TaskbarTap.Restore"@,
            TaskbarTransparencyMode::Clear => "TBWidget.TaskbarTap.Clear"@,
        },
{
    match mode {
        TaskbarTransparencyMode::Off => "TBWidget.TaskbarTap.Restore",
        TaskbarTransparencyMode::Clear => "TBWidget.TaskbarTap.Clear",
    }
}

/// The mode as it is written in the log.
pub fn mode_name(mode: TaskbarTransparencyMode) -> (name: &'static str)
    ensures
        name@ == match mode {
            TaskbarTransparencyMode::Off => "off"@,
            TaskbarTransparencyMode::Clear => "clear"@,
        },
{
    match mode {
        TaskbarTransparencyMode::Off => "off",
        TaskbarTransparencyMode::Clear => "clear",
    }
}

/// The accent policy handed to `SetWindowCompositionAttribute`.
#[derive(Debug, Clone, Copy, PartialEq, Eq, Structural)]
pub struct AccentPolicyValues {
    pub accent_state: i32,
    pub accent_flags: i32,
    pub gradient_color: u32,
    pub animation_id: i32,
}

/// `ACCENT_DISABLED` for off; `ACCENT_ENABLE_TRANSPARENTGRADIENT` with flag 2
/// and a fully transparent colour for clear.
pub fn accent_policy(mode: TaskbarTransparencyMode) -> (policy: AccentPolicyValues)
    ensures
        policy.gradient_color == 0,
        policy.animation_id == 0,
        mode == TaskbarTransparencyMode::Off ==> policy.accent_state == 0 && policy.accent_flags
            == 0,
        mode == TaskbarTransparencyMode::Clear ==> policy.accent_state == 2 && policy.accent_flags
            == 2,
{
    match mode {
        TaskbarTransparencyMode::Off => AccentPolicyValues {
            accent_state: 0,
            accent_flags: 0,
            gradient_color: 0,
            animation_id: 0,
        },
        TaskbarTransparencyMode::Clear => AccentPolicyValues {
            accent_state: 2,
            accent_flags: 2,
            gradient_color: 0,
            animation_id: 0,
        },
    }
}

pub const WM_DESTROY: u32 = 0x0002;

pub const WM_CLOSE: u32 = 0x0010;

pub const WM_SETTINGCHANGE: u32 = 0x001a;

pub const WM_DISPLAYCHANGE: u32 = 0x007e;

pub const WM_DPICHANGED: u32 = 0x02e0;

/// `SPI_SETWORKAREA`, the `wParam` of a work-area change.
pub const SPI_SETWORKAREA: u32 = 47;

/// The trigger under which a worker-window message reapplies the mode.
pub open spec fn reapply_trigger_spec(message: u32, wparam: usize, taskbar_created: u32) -> Option<
    Seq<char>,
> {
    if message == taskbar_created {
        Some("TaskbarCreated"@)
    } else if message == WM_DISPLAYCHANGE {
        Some("WM_DISPLAYCHANGE"@)
    } else if message == WM_SETTINGCHANGE && wparam as u32 == SPI_SETWORKAREA {
        Some("WM_SETTINGCHANGE/SPI_SETWORKAREA"@)
    } else if message == WM_DPICHANGED {
        Some("WM_DPICHANGED"@)
    } else {
        None
    }
}

/// Only a recreated taskbar, a display change, a work-area change and a DPI
/// change make the worker reapply the transparency.
pub fn reapply_trigger(message: u32, wparam: usize, taskbar_created: u32) -> (trigger: Option<
    &'static str,
>)
    ensures
        match trigger {
            Some(name) => reapply_trigger_spec(message, wparam, taskbar_created) == Some(name@),
            None => reapply_trigger_spec(message, wparam, taskbar_created) is None,
        },
{
    if message == taskbar_created {
        Some("TaskbarCreated")
    } else if message == WM_DISPLAYCHANGE {
        Some("WM_DISPLAYCHANGE")
    } else if message == WM_SETTINGCHANGE && wparam as u32 == SPI_SETWORKAREA {
        Some("WM_SETTINGCHANGE/SPI_SETWORKAREA")
    } else if message == WM_DPICHANGED {
        Some("WM_DPICHANGED")
    } else {
        None
    }
}

/// What the worker window does with a message.
#[derive(Debug, Clone, Copy, PartialEq, Eq)]
pub enum WorkerAction {
    /// `WM_CLOSE`: destroy the window.
    DestroyWindow,
    /// `WM_DESTROY`: end the message loop.
    Quit,
    /// Reapply the requested mode, naming the trigger in the log.
    Reapply(&'static str),
    /// Hand the message to `DefWindowProcW`.
    Default,
}

/// Routes a message of the worker window.
pub fn worker_message_action(message: u32, wparam: usize, taskbar_created: u32) -> (action:
    WorkerAction)
    ensures
        message == WM_CLOSE ==> action == WorkerAction::DestroyWindow,
        message == WM_DESTROY ==> action == WorkerAction::Quit,
        message != WM_CLOSE && message != WM_DESTROY ==> match action {
            WorkerAction::Reapply(trigger) => reapply_trigger_spec(message, wparam, taskbar_created)
                == Some(trigger@),
            WorkerAction::Default => reapply_trigger_spec(message, wparam, taskbar_created) is None,
            _ => false,
        },
{
    if message == WM_CLOSE {
        WorkerAction::DestroyWindow
    } else if message == WM_DESTROY {
        WorkerAction::Quit
    } else {
        match reapply_trigger(message, wparam, taskbar_created) {
            Some(trigger) => WorkerAction::Reapply(trigger),
            None => WorkerAction::Default,
        }
    }
}

/// Where a recovery of the widget stands between attempts.
#[derive(Debug, Clone, Copy, PartialEq, Eq, Structural)]
pub enum RecoveryAttemptState {
    Initial,
    InFlight,
    RetryAfterStale,
}

/// An attempt starts at first and after a stale window, never while one runs.
pub fn should_start_recovery_attempt(state: RecoveryAttemptState) -> (r: bool)
    ensures
        r == (state != RecoveryAttemptState::InFlight),
{
    match state {
        RecoveryAttemptState::Initial => true,
        RecoveryAttemptState::InFlight => false,
        RecoveryAttemptState::RetryAfterStale => true,
    }
}

/// How many times the widget's main window is looked for after the taskbar
/// was recreated.
pub const MAX_RECOVERY_ATTEMPTS: u32 = 10;

/// What one recovery attempt came to.
#[derive(Debug, Clone, PartialEq, Eq)]
pub enum RecoveryOutcome {
    /// The main window is back on the taskbar.
    Restored,
    /// The window was found but could not be put back (the message).
    RestoreFailed(String),
    /// The old window handle is still being released.
    Stale,
    /// Looking for the window failed (the message).
    Failed(String),
    /// The work could not be scheduled on the main thread (the error).
    ScheduleFailed(String),
    /// No answer came from the main thread in time (the error).
    TimedOut(String),
}

/// The state of the recovery loop: attempts begun, where it stands, and the
/// error that a failure reports.
#[derive(Debug)]
pub struct RecoveryLoop {
    pub attempts: u32,
    pub state: RecoveryAttemptState,
    pub last_error: String,
}

/// What the loop does after an outcome.
#[derive(Debug, Clone, Copy, PartialEq, Eq, Structural)]
pub enum RecoveryVerdict {
    Succeeded,
    Retry,
    Failed,
}

impl RecoveryLoop {
    /// A loop that has begun no attempt.
    pub fn new() -> (r: RecoveryLoop)
        ensures
            r.attempts == 0,
            r.state == RecoveryAttemptState::Initial,
            r.last_error@ == "main 窗口仍在等待 Tauri 移除失效句柄"@,
    {
        RecoveryLoop {
            attempts: 0,
            state: RecoveryAttemptState::Initial,
            last_error: owned("main 窗口仍在等待 Tauri 移除失效句柄"),
        }
    }

    /// Whether another attempt may begin: fewer than ten begun and none in
    /// flight.
    pub open spec fn may_begin(self) -> bool {
        self.attempts < MAX_RECOVERY_ATTEMPTS && self.state != RecoveryAttemptState::InFlight
    }

    /// Begins the next attempt if one may start: fewer than ten begun and
    /// none in flight.
    pub fn begin_attempt(&mut self) -> (started: bool)
        ensures
            started == old(self).may_begin(),
            started ==> final(self).attempts == old(self).attempts + 1 && final(self).state
                == RecoveryAttemptState::InFlight,
            !started ==> final(self).attempts == old(self).attempts && final(self).state == old(self).state,
            final(self).last_error@ == old(self).last_error@,
    {
        if self.attempts < MAX_RECOVERY_ATTEMPTS && should_start_recovery_attempt(self.state) {
            self.attempts = self.attempts + 1;
            self.state = RecoveryAttemptState::InFlight;
            true
        } else {
            false
        }
    }

    /// Records what the attempt in flight came to: success ends the loop, a
    /// stale window lets the next attempt start, anything else ends it with
    /// that error.
    pub fn record(&mut self, outcome: RecoveryOutcome) -> (verdict: RecoveryVerdict)
        ensures
            final(self).attempts == old(self).attempts,
            match outcome {
                RecoveryOutcome::Restored => verdict == RecoveryVerdict::Succeeded && final(self).state == old(self).state && final(self).last_error@ == old(self).last_error@,
                RecoveryOutcome::Stale => verdict == RecoveryVerdict::Retry && final(self).state
                    == RecoveryAttemptState::RetryAfterStale && final(self).last_error@ == "第 "@
                    + decimal_spec(old(self).attempts as nat) + " 次检查仍在等待失效窗口释放"@,
                RecoveryOutcome::RestoreFailed(error) => verdict == RecoveryVerdict::Failed
                    && final(self).state == RecoveryAttemptState::InFlight && final(self).last_error@
                    == error@,
                RecoveryOutcome::Failed(error) => verdict == RecoveryVerdict::Failed && final(self).state == RecoveryAttemptState::InFlight && final(self).last_error@ == error@,
                RecoveryOutcome::ScheduleFailed(error) => verdict == RecoveryVerdict::Failed
                    && final(self).state == RecoveryAttemptState::InFlight && final(self).last_error@
                    == "无法调度 Tauri 主线程恢复："@ + error@,
                RecoveryOutcome::TimedOut(error) => verdict == RecoveryVerdict::Failed && final(self).state == RecoveryAttemptState::InFlight && final(self).last_error@
                    == "等待 Tauri 主线程恢复结果超时或失败："@ + error@,
            },
    {
        match outcome {
            RecoveryOutcome::Restored => RecoveryVerdict::Succeeded,
            RecoveryOutcome::Stale => {
                let mut message = owned("第 ");
                push_decimal(&mut message, self.attempts as u64);
                message.append(" 次检查仍在等待失效窗口释放");
                self.last_error = message;
                self.state = RecoveryAttemptState::RetryAfterStale;
                RecoveryVerdict::Retry
            },
            RecoveryOutcome::RestoreFailed(error) => {
                self.last_error = error;
                self.state = RecoveryAttemptState::InFlight;
                RecoveryVerdict::Failed
            },
            RecoveryOutcome::Failed(error) => {
                self.last_error = error;
                self.state = RecoveryAttemptState::InFlight;
                RecoveryVerdict::Failed
            },
            RecoveryOutcome::ScheduleFailed(error) => {
                let mut message = owned("无法调度 Tauri 主线程恢复：");
                message.append(error.as_str());
                self.last_error = message;
                self.state = RecoveryAttemptState::InFlight;
                RecoveryVerdict::Failed
            },
            RecoveryOutcome::TimedOut(error) => {
                let mut message = owned("等待 Tauri 主线程恢复结果超时或失败：");
                message.append(error.as_str());
                self.last_error = message;
                self.state = RecoveryAttemptState::InFlight;
                RecoveryVerdict::Failed
            },
        }
    }

    /// The log line of a recovery that did not succeed.
    pub fn failure_message(&self) -> (message: String)
        ensures
            message@ == "任务栏组件恢复失败 stage=recover-main-window trigger=TaskbarCreated error="@
                + self.last_error@,
    {
        let mut message = owned(
            "任务栏组件恢复失败 stage=recover-main-window trigger=TaskbarCreated error=",
        );
        message.append(self.last_error.as_str());
        message
    }
}

/// After an outcome that is neither success nor a stale window the loop
/// is over: whatever came before, no further attempt may begin.
pub proof fn recovery_stops_after_failure(attempts: u32, last_error: String)
    ensures
        !(RecoveryLoop { attempts, state: RecoveryAttemptState::InFlight, last_error }).may_begin(),
{
}

/// A stale window lets the next attempt begin until ten were made.
pub proof fn recovery_retries_after_stale(attempts: u32, last_error: String)
    ensures
        (RecoveryLoop { attempts, state: RecoveryAttemptState::RetryAfterStale, last_error }).may_begin()
            == (attempts < MAX_RECOVERY_ATTEMPTS),
{
}

/// The FNV-1a offset basis and prime (64 bits).
pub const FNV_OFFSET_BASIS: u64 = 0xcbf2_9ce4_8422_2325;

pub const FNV_PRIME: u64 = 0x0000_0100_0000_01b3;

/// FNV-1a of `bytes`: for each byte, xor it in, then multiply by the prime
/// modulo 2^64.
pub open spec fn fnv1a_spec(bytes: Seq<u8>) -> u64
    decreases bytes.len(),
{
    if bytes.len() == 0 {
        FNV_OFFSET_BASIS
    } else {
        (fnv1a_spec(bytes.drop_last()) ^ (bytes.last() as u64)).wrapping_mul(FNV_PRIME)
    }
}

/// The fingerprint of the helper DLL that names its file on disk.
pub fn tap_dll_fingerprint(bytes: &[u8]) -> (hash: u64)
    ensures
        hash == fnv1a_spec(bytes@),
{
    let mut hash: u64 = FNV_OFFSET_BASIS;
    let mut i: usize = 0;
    while i < bytes.len()
        invariant
            i <= bytes@.len(),
            hash == fnv1a_spec(bytes@.subrange(0, i as int)),
        decreases bytes@.len() - i,
    {
        assert(bytes@.subrange(0, i + 1).drop_last() =~= bytes@.subrange(0, i as int));
        hash = (hash ^ (bytes[i] as u64)).wrapping_mul(FNV_PRIME);
        i = i + 1;
    }
    assert(bytes@.subrange(0, bytes@.len() as int) =~= bytes@);
    hash
}

/// The file name of the helper DLL in the host's temporary directory.
pub fn helper_file_name() -> (name: String)
    ensures
        name@ == "tbwidget-taskbar-tap-0.1.0.dll"@,
{
    owned("tbwidget-taskbar-tap-0.1.0.dll")
}

/// What reading the helper file that is already on disk showed.
#[derive(Debug, Clone, Copy, PartialEq, Eq, Structural)]
pub enum HelperFileState {
    /// It holds exactly the helper's bytes.
    Same,
    /// It holds other bytes.
    Different,
    /// There is no such file.
    Missing,
    /// It could not be read; the length its metadata gave, if any.
    Unreadable(Option<u64>),
}

/// What to do with the helper file.
#[derive(Debug, Clone, Copy, PartialEq, Eq, Structural)]
pub enum HelperFileAction {
    /// Use it as it is.
    Keep,
    /// Write the helper's bytes to it.
    Write,
    /// It is locked (loaded by Explorer) with the right length: use it.
    AssumeLocked,
    /// Report the read error.
    Fail,
}

/// Keeps an identical file, rewrites a different or missing one, and trusts
/// an unreadable file only when its length is the helper's.
pub fn helper_file_action(state: HelperFileState, expected_len: u64) -> (action: HelperFileAction)
    ensures
        action == match state {
            HelperFileState::Same => HelperFileAction::Keep,
            HelperFileState::Different => HelperFileAction::Write,
            HelperFileState::Missing => HelperFileAction::Write,
            HelperFileState::Unreadable(len) => if len == Some(expected_len) {
                HelperFileAction::AssumeLocked
            } else {
                HelperFileAction::Fail
            },
        },
{
    match state {
        HelperFileState::Same => HelperFileAction::Keep,
        HelperFileState::Different => HelperFileAction::Write,
        HelperFileState::Missing => HelperFileAction::Write,
        HelperFileState::Unreadable(len) => match len {
            Some(n) => if n == expected_len {
                HelperFileAction::AssumeLocked
            } else {
                HelperFileAction::Fail
            },
            None => HelperFileAction::Fail,
        },
    }
}

/// How a new helper injection relates to one that may be running.
#[derive(Debug, Clone, Copy, PartialEq, Eq, Structural)]
pub enum TapInitClaim {
    /// An injection into this Explorer is already running.
    AlreadyRunning,
    /// None runs: claim the slot for this Explorer.
    Claim,
    /// One runs for an older Explorer: take the slot over from it.
    Replace(u32),
}

/// Decides from the pid whose injection is running (0 for none).
pub fn tap_init_claim(active_pid: u32, explorer_pid: u32) -> (claim: TapInitClaim)
    ensures
        claim == if active_pid == explorer_pid {
            TapInitClaim::AlreadyRunning
        } else if active_pid == 0 {
            TapInitClaim::Claim
        } else {
            TapInitClaim::Replace(active_pid)
        },
{
    if active_pid == explorer_pid {
        TapInitClaim::AlreadyRunning
    } else if active_pid == 0 {
        TapInitClaim::Claim
    } else {
        TapInitClaim::Replace(active_pid)
    }
}

/// The UTF-16 code units of one character.
pub open spec fn utf16_char(c: char) -> Seq<u16> {
    let u = c as u32;
    if u < 0x10000 {
        seq![u as u16]
    } else {
        seq![(0xd800 + (u - 0x10000) / 0x400) as u16, (0xdc00 + (u - 0x10000) % 0x400) as u16]
    }
}

/// The UTF-16 encoding of a character sequence.
pub open spec fn utf16_spec(s: Seq<char>) -> Seq<u16>
    decreases s.len(),
{
    if s.len() == 0 {
        Seq::empty()
    } else {
        utf16_spec(s.drop_last()) + utf16_char(s.last())
    }
}

fn push_utf16(out: &mut Vec<u16>, s: &str)
    ensures
        final(out)@ == old(out)@ + utf16_spec(s@),
{
    let n = s.unicode_len();
    let ghost start = out@;
    let mut i: usize = 0;
    while i < n
        invariant
            n == s@.len(),
            i <= n,
            out@ == start + utf16_spec(s@.subrange(0, i as int)),
        decreases n - i,
    {
        let c = s.get_char(i);
        let u = c as u32;
        assert(s@.subrange(0, i + 1).drop_last() =~= s@.subrange(0, i as int));
        if u < 0x10000 {
            out.push(u as u16);
        } else {
            let v = u - 0x10000;
            out.push((0xd800 + v / 0x400) as u16);
            out.push((0xdc00 + v % 0x400) as u16);
        }
        assert(out@ =~= start + utf16_spec(s@.subrange(0, i + 1)));
        i = i + 1;
    }
    assert(s@.subrange(0, n as int) =~= s@);
}

/// `value` in UTF-16 with a terminating NUL, as Win32 wide-string APIs take it.
pub fn to_wide(value: &str) -> (wide: Vec<u16>)
    ensures
        wide@ == utf16_spec(value@).push(0),
{
    let mut wide: Vec<u16> = Vec::new();
    push_utf16(&mut wide, value);
    wide.push(0);
    wide
}

/// The full path of `Windows.UI.Xaml.dll` in the system directory `system_dir`
/// (UTF-16, no terminator), NUL-terminated.
pub fn xaml_library_path(system_dir: &[u16]) -> (path: Vec<u16>)
    ensures
        path@ == (if system_dir@.len() > 0 && system_dir@.last() == 0x5c {
            system_dir@
        } else {
            system_dir@.push(0x5c)
        }) + utf16_spec("Windows.UI.Xaml.dll"@) + seq![0u16],
{
    let mut path: Vec<u16> = Vec::new();
    let mut i: usize = 0;
    while i < system_dir.len()
        invariant
            i <= system_dir@.len(),
            path@ == system_dir@.subrange(0, i as int),
        decreases system_dir@.len() - i,
    {
        path.push(system_dir[i]);
        i = i + 1;
    }
    assert(path@ =~= system_dir@);
    let n = system_dir.len();
    if !(n > 0 && system_dir[n - 1] == 0x5c) {
        path.push(0x5c);
    }
    push_utf16(&mut path, "Windows.UI.Xaml.dll");
    path.push(0);
    path
}

/// The candidate list of a search that found no helper window: the entries
/// joined by `;`, or `none`.
pub fn candidates_summary(candidates: &Vec<String>) -> (summary: String)
    ensures
        candidates@.len() == 0 ==> summary@ == "none"@,
        candidates@.len() > 0 ==> summary@ == crate::text::joined(
            candidates@.map_values(|c: String| c@),
            ";"@,
        ),
{
    if candidates.len() == 0 {
        owned("none")
    } else {
        crate::text::join(candidates, ";")
    }
}


/// The `HRESULT` of a failure when no endpoint was tried (`E_FAIL`).
pub const E_FAIL: u32 = 0x8000_4005;

/// A `HRESULT` as the log writes it: `0x` and eight upper-case hex digits of
/// its bits.
pub open spec fn hresult_text(hresult: i32) -> Seq<char> {
    "0x"@ + padded_hex_upper_spec((hresult as u32) as nat, 8)
}

/// Where the walk through the XAML diagnostics endpoints stands.
#[derive(Debug, Clone, Copy, PartialEq, Eq, Structural)]
pub struct EndpointScan {
    /// How many endpoints were tried.
    pub tried: usize,
    /// The `HRESULT` of the last try (`E_FAIL` before the first).
    pub last_hresult: i32,
    /// Whether a try succeeded.
    pub initialized: bool,
}

impl EndpointScan {
    pub fn new() -> (scan: EndpointScan)
        ensures
            scan.tried == 0,
            scan.last_hresult == E_FAIL as i32,
            !scan.initialized,
    {
        EndpointScan { tried: 0, last_hresult: 0x8000_4005u32 as i32, initialized: false }
    }

    /// The endpoint to try next: none once one succeeded or all sixteen
    /// were tried.
    pub open spec fn next_spec(self) -> Option<usize> {
        if self.initialized || self.tried >= VISUAL_DIAG_ENDPOINTS {
            None
        } else {
            Some(self.tried)
        }
    }

    /// The index of the endpoint to try next.
    pub fn next_endpoint(&self) -> (next: Option<usize>)
        ensures
            next == self.next_spec(),
    {
        if self.initialized || self.tried >= VISUAL_DIAG_ENDPOINTS {
            None
        } else {
            Some(self.tried)
        }
    }

    /// Records the `HRESULT` of the endpoint just tried; a non-negative one
    /// is a success.
    pub fn record(&mut self, hresult: i32)
        requires
            old(self).tried < VISUAL_DIAG_ENDPOINTS,
        ensures
            final(self).tried == old(self).tried + 1,
            final(self).last_hresult == hresult,
            final(self).initialized == (hresult >= 0),
    {
        self.tried = self.tried + 1;
        self.last_hresult = hresult;
        self.initialized = hresult >= 0;
    }

    /// The error when no endpoint accepted the helper.
    pub fn failure_message(&self, explorer_pid: u32) -> (message: String)
        ensures
            message@ == "stage=InitializeXamlDiagnosticsEx ExplorerPid="@ + decimal_spec(
                explorer_pid as nat,
            ) + " endpoints=VisualDiagConnection1..VisualDiagConnection16 HRESULT="@ + hresult_text(
                self.last_hresult,
            ),
    {
        let mut message = owned("stage=InitializeXamlDiagnosticsEx ExplorerPid=");
        push_decimal(&mut message, explorer_pid as u64);
        message.append(" endpoints=VisualDiagConnection1..VisualDiagConnection16 HRESULT=");
        message.append("0x");
        push_padded_hex_upper(&mut message, self.last_hresult as u32 as u64, 8);
        message
    }
}

/// The endpoint walk stops at the first success, and it never goes past the
/// sixteenth endpoint.
pub proof fn endpoint_scan_stops_at_success(scan: EndpointScan)
    ensures
        scan.initialized ==> scan.next_spec() is None,
        scan.next_spec() matches Some(i) ==> i < VISUAL_DIAG_ENDPOINTS,
{
}

/// What follows the helper injection that ran on its own thread.
#[derive(Debug, Clone, Copy, PartialEq, Eq, Structural)]
pub enum TapInitFollowup {
    /// A newer injection took over: do nothing.
    Ignore,
    /// Log the success; send the clear command when clear is still wanted.
    Succeeded { send_clear: bool },
    /// Log the failure.
    Failed,
}

/// Decides what follows an injection: a success counts only while this
/// injection still holds the slot.
pub fn tap_init_followup(succeeded: bool, still_current: bool, requested_clear: bool) -> (f:
    TapInitFollowup)
    ensures
        f == if !succeeded {
            TapInitFollowup::Failed
        } else if !still_current {
            TapInitFollowup::Ignore
        } else {
            TapInitFollowup::Succeeded { send_clear: requested_clear }
        },
{
    if !succeeded {
        TapInitFollowup::Failed
    } else if !still_current {
        TapInitFollowup::Ignore
    } else {
        TapInitFollowup::Succeeded { send_clear: requested_clear }
    }
}

/// The outcome of sending a mode's command to the helper window: the
/// message must be delivered and answered with 1.
pub fn tap_command_outcome(
    mode: TaskbarTransparencyMode,
    explorer_pid: u32,
    delivered: bool,
    command_result: usize,
    win32_error: u32,
) -> (r: Result<(), String>)
    ensures
        ({
            let name = match mode {
                TaskbarTransparencyMode::Off => "TBWidget.TaskbarTap.Restore"@,
                TaskbarTransparencyMode::Clear => "TBWidget.TaskbarTap.Clear"@,
            };
            if !delivered {
                r matches Err(e) && e@ == "stage=SendMessageTimeoutW("@ + name + ") ExplorerPid="@
                    + decimal_spec(explorer_pid as nat) + " commandResult="@ + decimal_spec(
                    command_result as nat,
                ) + " timeout=1000ms Win32Error="@ + decimal_spec(win32_error as nat)
            } else if command_result != 1 {
                r matches Err(e) && e@ == "stage=validate-helper-command("@ + name
                    + ") ExplorerPid="@ + decimal_spec(explorer_pid as nat) + " commandResult="@
                    + decimal_spec(command_result as nat) + " expected=1"@
            } else {
                r is Ok
            }
        }),
{
    let name = tap_message_name(mode);
    if !delivered {
        let mut message = owned("stage=SendMessageTimeoutW(");
        message.append(name);
        message.append(") ExplorerPid=");
        push_decimal(&mut message, explorer_pid as u64);
        message.append(" commandResult=");
        push_decimal(&mut message, command_result as u64);
        message.append(" timeout=1000ms Win32Error=");
        push_decimal(&mut message, win32_error as u64);
        return Err(message);
    }
    if !tap_command_succeeded(command_result) {
        let mut message = owned("stage=validate-helper-command(");
        message.append(name);
        message.append(") ExplorerPid=");
        push_decimal(&mut message, explorer_pid as u64);
        message.append(" commandResult=");
        push_decimal(&mut message, command_result as u64);
        message.append(" expected=1");
        return Err(message);
    }
    Ok(())
}

/// The backend as the log names it.
pub fn backend_name(backend: TransparencyBackend) -> (name: &'static str)
    ensures
        name@ == match backend {
            TransparencyBackend::ClassicAccent => "ClassicAccent"@,
            TransparencyBackend::XamlTap => "XamlTap"@,
        },
{
    match backend {
        TransparencyBackend::ClassicAccent => "ClassicAccent",
        TransparencyBackend::XamlTap => "XamlTap",
    }
}

/// The log line of an application of the requested mode.
pub fn apply_report(
    backend: TransparencyBackend,
    build: u32,
    trigger: &str,
    mode: TaskbarTransparencyMode,
    result: &Result<(), String>,
) -> (line: String)
    ensures
        ({
            let details = " stage=apply backend="@ + (match backend {
                TransparencyBackend::ClassicAccent => "ClassicAccent"@,
                TransparencyBackend::XamlTap => "XamlTap"@,
            }) + " build="@ + decimal_spec(build as nat) + " trigger="@ + trigger@ + " mode="@
                + (match mode {
                TaskbarTransparencyMode::Off => "off"@,
                TaskbarTransparencyMode::Clear => "clear"@,
            });
            match result {
                Ok(()) => line@ == "任务栏透明成功"@ + details,
                Err(e) => line@ == "任务栏透明失败"@ + details + " "@ + e@,
            }
        }),
{
    let mut line = match result {
        Ok(()) => owned("任务栏透明成功"),
        Err(_) => owned("任务栏透明失败"),
    };
    line.append(" stage=apply backend=");
    line.append(backend_name(backend));
    line.append(" build=");
    push_decimal(&mut line, build as u64);
    line.append(" trigger=");
    line.append(trigger);
    line.append(" mode=");
    line.append(mode_name(mode));
    match result {
        Ok(()) => {},
        Err(e) => {
            line.append(" ");
            line.append(e.as_str());
        },
    }
    line
}

} // verus!
