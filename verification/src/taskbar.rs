//! The decisions behind the widget window that lives inside the Windows
//! taskbar: DPI conversion, when to re-attach, which mouse input the
//! low-level hook takes over, the window styles of the attached child, the
//! bounded native event queues and the diagnostic probe.

use vstd::prelude::*;
use vstd::string::*;
use std::collections::VecDeque;

use crate::text::{joined, owned};

verus! {

/// The logical width used when the widget was not attached before.
pub const FALLBACK_LOGICAL_WIDTH: i32 = 260;

pub const MIN_LOGICAL_WIDTH: i32 = 120;

pub const MAX_LOGICAL_WIDTH: i32 = 800;

/// Rust's `/` on integers: the quotient rounded toward zero.
pub open spec fn trunc_div(n: int, d: int) -> int {
    if n >= 0 {
        n / d
    } else {
        -((-n) / d)
    }
}

/// The logical width of `physical_width` pixels at `dpi` (rounded to the
/// nearest; a DPI of 0 counts as 1).
pub open spec fn logical_width_spec(physical_width: i32, dpi: u32) -> i32 {
    let d: int = if dpi < 1 {
        1
    } else {
        dpi as int
    };
    trunc_div(physical_width * 96 + d / 2, d) as i32
}

/// Converts a width in physical pixels back to logical pixels at `dpi`.
pub fn physical_to_logical_width(physical_width: i32, dpi: u32) -> (logical: i32)
    ensures
        logical == logical_width_spec(physical_width, dpi),
{
    let d: i64 = if dpi < 1 {
        1
    } else {
        dpi as i64
    };
    let n: i64 = physical_width as i64 * 96 + d / 2;
    let q: i64 = if n >= 0 {
        n / d
    } else {
        -((-n) / d)
    };
    #[verifier::truncate]
    (q as i32)
}

/// A width that was scaled from a logical width at the same DPI (exactly,
/// without rounding) converts back to that logical width.
pub proof fn physical_width_recovers_logical_width(logical: i32, dpi: u32)
    requires
        logical >= 0,
        dpi >= 1,
        (logical * dpi) % 96 == 0,
        logical * dpi / 96 <= i32::MAX,
    ensures
        logical_width_spec((logical * dpi / 96) as i32, dpi) == logical,
{
    let d = dpi as int;
    let l = logical as int;
    let p = l * d / 96;
    assert(p * 96 == l * d) by (nonlinear_arith)
        requires
            (l * d) % 96 == 0,
            p == l * d / 96,
    ;
    assert(0 <= d / 2 < d);
    assert((l * d + d / 2) / d == l) by (nonlinear_arith)
        requires
            0 <= d / 2 < d,
            d >= 1,
            l >= 0,
    ;
    assert(p >= 0) by (nonlinear_arith)
        requires
            l >= 0,
            d >= 1,
            p == l * d / 96,
    ;
}

/// The widget must be attached again when its parent or the primary
/// taskbar is gone, when it has no parent, or when its parent is not the
/// primary taskbar.
pub fn should_reattach_to_primary_taskbar(
    parent: isize,
    parent_valid: bool,
    primary: isize,
    primary_valid: bool,
) -> (r: bool)
    ensures
        r == (!parent_valid || !primary_valid || parent == 0 || parent != primary),
{
    !parent_valid || !primary_valid || parent == 0 || parent != primary
}

/// The logical width kept when the widget is reflowed: the current
/// physical width converted at the taskbar's DPI (at least 96), clamped to
/// 120..=800.
pub open spec fn clamp_logical_width(width: i32) -> i32 {
    if width < MIN_LOGICAL_WIDTH {
        MIN_LOGICAL_WIDTH
    } else if width > MAX_LOGICAL_WIDTH {
        MAX_LOGICAL_WIDTH
    } else {
        width
    }
}

pub fn reflow_logical_width(physical_width: i32, dpi: u32) -> (r: Result<i32, String>)
    ensures
        physical_width <= 0 ==> (r matches Err(e) && e@ == "任务栏组件当前宽度无效"@),
        physical_width > 0 ==> (r matches Ok(w) && w == clamp_logical_width(
            logical_width_spec(physical_width, if dpi < 96 { 96 } else { dpi }),
        ) && MIN_LOGICAL_WIDTH <= w <= MAX_LOGICAL_WIDTH),
{
    if physical_width <= 0 {
        return Err(owned("任务栏组件当前宽度无效"));
    }
    let dpi = if dpi < 96 {
        96
    } else {
        dpi
    };
    let width = physical_to_logical_width(physical_width, dpi);
    Ok(
        if width < MIN_LOGICAL_WIDTH {
            MIN_LOGICAL_WIDTH
        } else if width > MAX_LOGICAL_WIDTH {
            MAX_LOGICAL_WIDTH
        } else {
            width
        },
    )
}

/// The logical width taken by the notification area at the right end of
/// the taskbar (nothing when the tray starts beyond the taskbar's end).
pub fn reserved_logical_width(taskbar_right: i32, tray_left: i32, dpi: u32) -> (width: i32)
    requires
        i32::MIN <= taskbar_right - tray_left <= i32::MAX,
    ensures
        width == logical_width_spec(
            if taskbar_right - tray_left > 0 {
                (taskbar_right - tray_left) as i32
            } else {
                0
            },
            if dpi < 96 {
                96
            } else {
                dpi
            },
        ),
{
    let reserved = taskbar_right - tray_left;
    let reserved = if reserved > 0 {
        reserved
    } else {
        0
    };
    physical_to_logical_width(reserved, if dpi < 96 { 96 } else { dpi })
}

pub const WM_NCHITTEST: u32 = 0x0084;

pub const WM_CONTEXTMENU: u32 = 0x007b;

pub const WM_MOUSEACTIVATE: u32 = 0x0021;

pub const WM_LBUTTONDOWN: u32 = 0x0201;

pub const WM_LBUTTONUP: u32 = 0x0202;

pub const WM_RBUTTONDOWN: u32 = 0x0204;

pub const WM_RBUTTONUP: u32 = 0x0205;

pub const WM_MBUTTONDOWN: u32 = 0x0207;

pub const WM_MBUTTONUP: u32 = 0x0208;

/// `HC_ACTION`: the hook code of a message the hook may act on.
pub const HC_ACTION: i32 = 0;

pub const HTCLIENT: isize = 1;

pub const MA_NOACTIVATE: isize = 3;

/// The widget's own window, as a subclass role.
pub const SUBCLASS_ROLE_WIDGET: usize = 1;

/// A WebView2 child window, as a subclass role.
pub const SUBCLASS_ROLE_WEBVIEW: usize = 2;

pub open spec fn is_mouse_button_message_spec(message: u32) -> bool {
    message == WM_LBUTTONDOWN || message == WM_LBUTTONUP || message == WM_RBUTTONDOWN || message
        == WM_RBUTTONUP || message == WM_MBUTTONDOWN || message == WM_MBUTTONUP
}

/// A press or release of the left, right or middle button.
pub fn is_mouse_button_message(message: u32) -> (r: bool)
    ensures
        r == is_mouse_button_message_spec(message),
{
    message == WM_LBUTTONDOWN || message == WM_LBUTTONUP || message == WM_RBUTTONDOWN || message
        == WM_RBUTTONUP || message == WM_MBUTTONDOWN || message == WM_MBUTTONUP
}

/// The button and its transition, for the log.
pub fn low_level_button_state(message: u32) -> (r: (&'static str, &'static str))
    ensures
        message == WM_LBUTTONDOWN ==> r.0@ == "LEFT"@ && r.1@ == "DOWN"@,
        message == WM_LBUTTONUP ==> r.0@ == "LEFT"@ && r.1@ == "UP"@,
        message == WM_RBUTTONDOWN ==> r.0@ == "RIGHT"@ && r.1@ == "DOWN"@,
        message == WM_RBUTTONUP ==> r.0@ == "RIGHT"@ && r.1@ == "UP"@,
        message == WM_MBUTTONDOWN ==> r.0@ == "MIDDLE"@ && r.1@ == "DOWN"@,
        message == WM_MBUTTONUP ==> r.0@ == "MIDDLE"@ && r.1@ == "UP"@,
        !is_mouse_button_message_spec(message) ==> r.0@ == "UNKNOWN"@ && r.1@ == "UNKNOWN"@,
{
    if message == WM_LBUTTONDOWN {
        ("LEFT", "DOWN")
    } else if message == WM_LBUTTONUP {
        ("LEFT", "UP")
    } else if message == WM_RBUTTONDOWN {
        ("RIGHT", "DOWN")
    } else if message == WM_RBUTTONUP {
        ("RIGHT", "UP")
    } else if message == WM_MBUTTONDOWN {
        ("MIDDLE", "DOWN")
    } else if message == WM_MBUTTONUP {
        ("MIDDLE", "UP")
    } else {
        ("UNKNOWN", "UNKNOWN")
    }
}

/// The message's Win32 name, for the log.
pub fn mouse_message_name(message: u32) -> (name: &'static str)
    ensures
        message == WM_LBUTTONDOWN ==> name@ == "WM_LBUTTONDOWN"@,
        message == WM_LBUTTONUP ==> name@ == "WM_LBUTTONUP"@,
        message == WM_RBUTTONDOWN ==> name@ == "WM_RBUTTONDOWN"@,
        message == WM_RBUTTONUP ==> name@ == "WM_RBUTTONUP"@,
        message == WM_MBUTTONDOWN ==> name@ == "WM_MBUTTONDOWN"@,
        message == WM_MBUTTONUP ==> name@ == "WM_MBUTTONUP"@,
        !is_mouse_button_message_spec(message) ==> name@ == "WM_MOUSE"@,
{
    if message == WM_LBUTTONDOWN {
        "WM_LBUTTONDOWN"
    } else if message == WM_LBUTTONUP {
        "WM_LBUTTONUP"
    } else if message == WM_RBUTTONDOWN {
        "WM_RBUTTONDOWN"
    } else if message == WM_RBUTTONUP {
        "WM_RBUTTONUP"
    } else if message == WM_MBUTTONDOWN {
        "WM_MBUTTONDOWN"
    } else if message == WM_MBUTTONUP {
        "WM_MBUTTONUP"
    } else {
        "WM_MOUSE"
    }
}

/// The subclass role, for the log.
pub fn subclass_role_name(role: usize) -> (name: &'static str)
    ensures
        name@ == if role == SUBCLASS_ROLE_WIDGET {
            "widget"@
        } else if role == SUBCLASS_ROLE_WEBVIEW {
            "webview"@
        } else {
            "unknown"@
        },
{
    if role == SUBCLASS_ROLE_WIDGET {
        "widget"
    } else if role == SUBCLASS_ROLE_WEBVIEW {
        "webview"
    } else {
        "unknown"
    }
}

/// What the subclass procedure answers itself (`None`: hand the message on
/// to the original window procedure). The system context menu is swallowed,
/// a click never activates the window, and only the widget's own window
/// claims its whole area in hit tests.
pub fn subclass_reply(message: u32, role: usize) -> (reply: Option<isize>)
    ensures
        reply == if message == WM_CONTEXTMENU {
            Some(0isize)
        } else if message == WM_MOUSEACTIVATE {
            Some(MA_NOACTIVATE)
        } else if message == WM_NCHITTEST && role == SUBCLASS_ROLE_WIDGET {
            Some(HTCLIENT)
        } else {
            None
        },
{
    if message == WM_CONTEXTMENU {
        Some(0)
    } else if message == WM_MOUSEACTIVATE {
        Some(MA_NOACTIVATE)
    } else if message == WM_NCHITTEST && role == SUBCLASS_ROLE_WIDGET {
        Some(HTCLIENT)
    } else {
        None
    }
}

/// A rectangle in physical screen pixels that the front end marked as
/// interactive.
#[derive(Debug, Clone)]
pub struct PhysicalInteractiveRegion {
    pub id: String,
    pub left: i32,
    pub top: i32,
    pub right: i32,
    pub bottom: i32,
}

/// The point lies in the half-open rectangle.
pub open spec fn contains_point(left: i32, top: i32, right: i32, bottom: i32, x: i32, y: i32) -> bool {
    x >= left && x < right && y >= top && y < bottom
}

pub open spec fn region_contains(region: PhysicalInteractiveRegion, x: i32, y: i32) -> bool {
    contains_point(region.left, region.top, region.right, region.bottom, x, y)
}

pub fn point_in_rect(left: i32, top: i32, right: i32, bottom: i32, x: i32, y: i32) -> (r: bool)
    ensures
        r == contains_point(left, top, right, bottom, x, y),
{
    x >= left && x < right && y >= top && y < bottom
}

/// The id of the first region that contains the point, if any.
pub fn interactive_region_at(regions: &Vec<PhysicalInteractiveRegion>, x: i32, y: i32) -> (r:
    Option<String>)
    ensures
        match r {
            Some(id) => exists|i: int|
                0 <= i < regions@.len() && region_contains(#[trigger] regions@[i], x, y) && id@
                    == regions@[i].id@ && forall|j: int|
                    0 <= j < i ==> !region_contains(#[trigger] regions@[j], x, y),
            None => forall|i: int| 0 <= i < regions@.len() ==> !region_contains(#[trigger] regions@[i], x, y),
        },
{
    let mut i: usize = 0;
    while i < regions.len()
        invariant
            i <= regions@.len(),
            forall|j: int| 0 <= j < i ==> !region_contains(#[trigger] regions@[j], x, y),
        decreases regions@.len() - i,
    {
        let region = &regions[i];
        if point_in_rect(region.left, region.top, region.right, region.bottom, x, y) {
            return Some(region.id.clone());
        }
        i = i + 1;
    }
    None
}

pub open spec fn clamp_i32(v: i32, lo: i32, hi: i32) -> i32 {
    if v < lo {
        lo
    } else if v > hi {
        hi
    } else {
        v
    }
}

fn clamp(v: i32, lo: i32, hi: i32) -> (r: i32)
    requires
        lo <= hi,
    ensures
        r == clamp_i32(v, lo, hi),
{
    if v < lo {
        lo
    } else if v > hi {
        hi
    } else {
        v
    }
}

/// A region's corners clamped into the widget window; a region left
/// without area is dropped.
pub fn physical_region(
    id: String,
    window_left: i32,
    window_top: i32,
    window_right: i32,
    window_bottom: i32,
    left: i32,
    top: i32,
    right: i32,
    bottom: i32,
) -> (r: Option<PhysicalInteractiveRegion>)
    requires
        window_left <= window_right,
        window_top <= window_bottom,
    ensures
        ({
            let l = clamp_i32(left, window_left, window_right);
            let t = clamp_i32(top, window_top, window_bottom);
            let rr = clamp_i32(right, window_left, window_right);
            let b = clamp_i32(bottom, window_top, window_bottom);
            if rr <= l || b <= t {
                r is None
            } else {
                r matches Some(region) && region.id@ == id@ && region.left == l && region.top == t
                    && region.right == rr && region.bottom == b
            }
        }),
{
    let l = clamp(left, window_left, window_right);
    let t = clamp(top, window_top, window_bottom);
    let rr = clamp(right, window_left, window_right);
    let b = clamp(bottom, window_top, window_bottom);
    if rr <= l || b <= t {
        return None;
    }
    Some(PhysicalInteractiveRegion { id, left: l, top: t, right: rr, bottom: b })
}

pub open spec fn same_region(a: PhysicalInteractiveRegion, b: PhysicalInteractiveRegion) -> bool {
    a.id@ == b.id@ && a.left == b.left && a.top == b.top && a.right == b.right && a.bottom
        == b.bottom
}

/// Whether a new list of regions differs from the current one.
pub fn regions_changed(
    current: &Vec<PhysicalInteractiveRegion>,
    next: &Vec<PhysicalInteractiveRegion>,
) -> (changed: bool)
    ensures
        changed == !(current@.len() == next@.len() && forall|i: int|
            0 <= i < current@.len() ==> same_region(#[trigger] current@[i], next@[i])),
{
    if current.len() != next.len() {
        return true;
    }
    let mut i: usize = 0;
    while i < current.len()
        invariant
            current@.len() == next@.len(),
            i <= current@.len(),
            forall|j: int| 0 <= j < i ==> same_region(#[trigger] current@[j], next@[j]),
        decreases current@.len() - i,
    {
        let a = &current[i];
        let b = &next[i];
        if !crate::text::chars_equal(a.id.as_str(), b.id.as_str()) || a.left != b.left || a.top
            != b.top || a.right != b.right || a.bottom != b.bottom {
            return true;
        }
        i = i + 1;
    }
    false
}

/// A click that the hook takes over, with the region it landed in.
#[derive(Debug, Clone, PartialEq, Eq)]
pub enum PointerCapture {
    Nothing,
    LeftDown(String),
    RightClick(String),
}

/// What the low-level mouse hook does with one message.
#[derive(Debug, Clone)]
pub struct HookDecision {
    /// Swallow the message instead of passing it on to the taskbar.
    pub consume: bool,
    /// Whether a left press that the widget took over is still held.
    pub left_button_down: bool,
    /// The click to queue for the front end.
    pub capture: PointerCapture,
}

/// The hook acts only on button messages of `HC_ACTION` that carry an event.
pub open spec fn hook_acts(code: i32, message: u32, has_event: bool) -> bool {
    code == HC_ACTION && is_mouse_button_message_spec(message) && has_event
}

/// Whether the hook swallows the message: every button message over an
/// interactive region, and the release of a left press it took over.
pub open spec fn hook_consumes(
    code: i32,
    message: u32,
    has_event: bool,
    left_button_down: bool,
    over_region: bool,
) -> bool {
    hook_acts(code, message, has_event) && (over_region || (message == WM_LBUTTONUP
        && left_button_down))
}

/// Whether a taken-over left press is held after the message.
pub open spec fn hook_holds_left(
    code: i32,
    message: u32,
    has_event: bool,
    left_button_down: bool,
    over_region: bool,
) -> bool {
    if !hook_acts(code, message, has_event) {
        left_button_down
    } else if over_region && message == WM_LBUTTONDOWN {
        true
    } else {
        left_button_down && message != WM_LBUTTONUP
    }
}

/// Decides a low-level mouse message. `left_button_down` says whether the
/// widget took over a left press that is still held; `hit` is the
/// interactive region under the pointer when the pointer is inside the
/// widget window (else `None`).
pub fn mouse_hook_decision(
    code: i32,
    message: u32,
    has_event: bool,
    left_button_down: bool,
    hit: Option<String>,
) -> (d: HookDecision)
    ensures
        d.consume == hook_consumes(code, message, has_event, left_button_down, hit is Some),
        code == 0 && has_event && hit is Some && (message == 0x0201 || message == 0x0202 || message
            == 0x0204 || message == 0x0205 || message == 0x0207 || message == 0x0208) ==> d.consume,
        d.left_button_down == hook_holds_left(
            code,
            message,
            has_event,
            left_button_down,
            hit is Some,
        ),
        match hit {
            Some(id) => if hook_acts(code, message, has_event) && message == WM_LBUTTONDOWN {
                d.capture matches PointerCapture::LeftDown(r) && r@ == id@
            } else if hook_acts(code, message, has_event) && message == WM_RBUTTONUP {
                d.capture matches PointerCapture::RightClick(r) && r@ == id@
            } else {
                d.capture == PointerCapture::Nothing
            },
            None => d.capture == PointerCapture::Nothing,
        },
{
    if !(code == HC_ACTION && is_mouse_button_message(message) && has_event) {
        return HookDecision {
            consume: false,
            left_button_down,
            capture: PointerCapture::Nothing,
        };
    }
    let ending_drag = message == WM_LBUTTONUP && left_button_down;
    let mut held = if message == WM_LBUTTONUP {
        false
    } else {
        left_button_down
    };
    match hit {
        Some(id) => {
            let capture = if message == WM_LBUTTONDOWN {
                held = true;
                PointerCapture::LeftDown(id)
            } else if message == WM_RBUTTONUP {
                PointerCapture::RightClick(id)
            } else {
                PointerCapture::Nothing
            };
            HookDecision { consume: true, left_button_down: held, capture }
        },
        None => HookDecision {
            consume: ending_drag,
            left_button_down: held,
            capture: PointerCapture::Nothing,
        },
    }
}

/// A left press taken over by the widget swallows its release too, even
/// when the pointer was dragged off every interactive region, and the press
/// is no longer held afterwards.
pub proof fn captured_left_press_swallows_its_release(
    held_before: bool,
    over_region_at_release: bool,
)
    ensures
        ({
            let held = hook_holds_left(HC_ACTION, WM_LBUTTONDOWN, true, held_before, true);
            &&& held
            &&& hook_consumes(HC_ACTION, WM_LBUTTONUP, true, held, over_region_at_release)
            &&& !hook_holds_left(HC_ACTION, WM_LBUTTONUP, true, held, over_region_at_release)
        }),
{
}

/// Every press or release of the left, right or middle button that the hook
/// sees (`HC_ACTION` with an event) over an interactive region is swallowed,
/// so the same click never reaches the taskbar; whatever else the hook is
/// handed passes on.
pub proof fn clicks_on_regions_never_reach_the_taskbar(
    code: i32,
    message: u32,
    has_event: bool,
    left_button_down: bool,
    over_region: bool,
)
    ensures
        code == 0 && has_event && over_region && (message == 0x0201 || message == 0x0202
            || message == 0x0204 || message == 0x0205 || message == 0x0207 || message == 0x0208)
            ==> hook_consumes(code, message, has_event, left_button_down, over_region),
        !(code == 0 && has_event && (message == 0x0201 || message == 0x0202 || message == 0x0204
            || message == 0x0205 || message == 0x0207 || message == 0x0208)) ==> !hook_consumes(
            code,
            message,
            has_event,
            left_button_down,
            over_region,
        ) && hook_holds_left(code, message, has_event, left_button_down, over_region)
            == left_button_down,
{
}

/// Outside every interactive region the taskbar keeps its clicks: only the
/// release of a press the widget took over is swallowed there.
pub proof fn clicks_outside_regions_reach_the_taskbar(
    code: i32,
    message: u32,
    has_event: bool,
    left_button_down: bool,
)
    requires
        !(message == WM_LBUTTONUP && left_button_down),
    ensures
        !hook_consumes(code, message, has_event, left_button_down, false),
{
}

pub const WS_POPUP: u32 = 0x8000_0000;

pub const WS_CHILD: u32 = 0x4000_0000;

pub const WS_VISIBLE: u32 = 0x1000_0000;

pub const WS_DISABLED: u32 = 0x0800_0000;

pub const WS_CLIPSIBLINGS: u32 = 0x0400_0000;

pub const WS_CLIPCHILDREN: u32 = 0x0200_0000;

pub const WS_CAPTION: u32 = 0x00c0_0000;

pub const WS_SYSMENU: u32 = 0x0008_0000;

pub const WS_THICKFRAME: u32 = 0x0004_0000;

pub const WS_MINIMIZEBOX: u32 = 0x0002_0000;

pub const WS_MAXIMIZEBOX: u32 = 0x0001_0000;

pub const WS_EX_TRANSPARENT: u32 = 0x0000_0020;

pub const WS_EX_TOOLWINDOW: u32 = 0x0000_0080;

pub const WS_EX_APPWINDOW: u32 = 0x0004_0000;

pub const WS_EX_NOACTIVATE: u32 = 0x0800_0000;

/// The top-level frame styles that a child of the taskbar drops.
pub const CHILD_STYLE_REMOVED: u32 = 0x88cf_0000;

/// The styles that make the widget a visible, clipped child window.
pub const CHILD_STYLE_ADDED: u32 = 0x5600_0000;

pub const CHILD_EX_STYLE_REMOVED: u32 = 0x0804_0000;

pub const CHILD_EX_STYLE_ADDED: u32 = 0x0000_00a0;

/// The style of the widget once it is a child of the taskbar: popup,
/// caption, frame, boxes, system menu and disabled cleared; child, visible
/// and both clip styles set; every other bit kept.
pub fn child_window_style(original: u32) -> (style: u32)
    ensures
        style & CHILD_STYLE_REMOVED == 0,
        style & CHILD_STYLE_ADDED == CHILD_STYLE_ADDED,
        style & !(CHILD_STYLE_REMOVED | CHILD_STYLE_ADDED) == original & !(CHILD_STYLE_REMOVED
            | CHILD_STYLE_ADDED),
{
    let style = (original & !(WS_POPUP | WS_CAPTION | WS_THICKFRAME | WS_MINIMIZEBOX
        | WS_MAXIMIZEBOX | WS_SYSMENU | WS_DISABLED)) | WS_CHILD | WS_VISIBLE | WS_CLIPSIBLINGS
        | WS_CLIPCHILDREN;
    assert(style & 0x88cf_0000u32 == 0u32 && style & 0x5600_0000u32 == 0x5600_0000u32 && style
        & !(0x88cf_0000u32 | 0x5600_0000u32) == original & !(0x88cf_0000u32 | 0x5600_0000u32))
        by (bit_vector)
        requires
            style == (original & !(0x8000_0000u32 | 0x00c0_0000u32 | 0x0004_0000u32
                | 0x0002_0000u32 | 0x0001_0000u32 | 0x0008_0000u32 | 0x0800_0000u32))
                | 0x4000_0000u32 | 0x1000_0000u32 | 0x0400_0000u32 | 0x0200_0000u32,
    ;
    style
}

/// The extended style of the attached widget: app-window and no-activate
/// cleared, tool-window and mouse-transparent set, every other bit kept.
pub fn child_window_ex_style(original: u32) -> (style: u32)
    ensures
        style & CHILD_EX_STYLE_REMOVED == 0,
        style & CHILD_EX_STYLE_ADDED == CHILD_EX_STYLE_ADDED,
        style & !(CHILD_EX_STYLE_REMOVED | CHILD_EX_STYLE_ADDED) == original & !(
        CHILD_EX_STYLE_REMOVED | CHILD_EX_STYLE_ADDED),
{
    let style = (original & !(WS_EX_APPWINDOW | WS_EX_NOACTIVATE)) | WS_EX_TOOLWINDOW
        | WS_EX_TRANSPARENT;
    assert(style & 0x0804_0000u32 == 0u32 && style & 0xa0u32 == 0xa0u32 && style & !(0x0804_0000u32
        | 0xa0u32) == original & !(0x0804_0000u32 | 0xa0u32)) by (bit_vector)
        requires
            style == (original & !(0x0004_0000u32 | 0x0800_0000u32)) | 0x80u32 | 0x20u32,
    ;
    style
}

/// The style the periodic probe restores: only `WS_DISABLED` cleared.
pub fn probe_window_style(style: u32) -> (cleaned: u32)
    ensures
        cleaned & WS_DISABLED == 0,
        cleaned & !WS_DISABLED == style & !WS_DISABLED,
{
    let cleaned = style & !WS_DISABLED;
    assert(cleaned & 0x0800_0000u32 == 0u32 && cleaned & !0x0800_0000u32 == style
        & !0x0800_0000u32) by (bit_vector)
        requires
            cleaned == style & !0x0800_0000u32,
    ;
    cleaned
}

/// The extended style the periodic probe restores: mouse-transparent and
/// no-activate cleared.
pub fn probe_window_ex_style(style: u32) -> (cleaned: u32)
    ensures
        cleaned & (WS_EX_TRANSPARENT | WS_EX_NOACTIVATE) == 0,
        cleaned & !(WS_EX_TRANSPARENT | WS_EX_NOACTIVATE) == style & !(WS_EX_TRANSPARENT
            | WS_EX_NOACTIVATE),
{
    let cleaned = style & !(WS_EX_TRANSPARENT | WS_EX_NOACTIVATE);
    assert(cleaned & (0x20u32 | 0x0800_0000u32) == 0u32 && cleaned & !(0x20u32 | 0x0800_0000u32)
        == style & !(0x20u32 | 0x0800_0000u32)) by (bit_vector)
        requires
            cleaned == style & !(0x20u32 | 0x0800_0000u32),
    ;
    cleaned
}

/// Where attaching the widget to the taskbar failed.
#[derive(Debug, Clone, Copy, PartialEq, Eq, Structural)]
pub enum AttachFailure {
    /// Setting the child style failed (nothing else was changed).
    ChildStyle,
    /// Setting the extended style failed.
    ExStyle,
    /// Installing the input guard failed.
    InputGuard,
    /// `SetParent` failed.
    SetParent,
    /// Positioning the attached window failed.
    SetWindowPos,
    /// The window ended up with another parent.
    ParentCheck,
}

/// What is undone after a failed attach.
#[derive(Debug, Clone, Copy, PartialEq, Eq, Structural)]
pub struct AttachRollback {
    pub restore_parent: bool,
    pub restore_style: bool,
    pub restore_ex_style: bool,
}

/// Undoes exactly the steps that were done before the failure: the style
/// once the extended style or a later step failed, the extended style once
/// the guard or a later step failed, the parent once it was changed.
pub fn attach_rollback(failure: AttachFailure) -> (plan: AttachRollback)
    ensures
        plan.restore_style == (failure != AttachFailure::ChildStyle),
        plan.restore_ex_style == (failure != AttachFailure::ChildStyle && failure
            != AttachFailure::ExStyle),
        plan.restore_parent == (failure == AttachFailure::SetWindowPos || failure
            == AttachFailure::ParentCheck),
{
    match failure {
        AttachFailure::ChildStyle => AttachRollback {
            restore_parent: false,
            restore_style: false,
            restore_ex_style: false,
        },
        AttachFailure::ExStyle => AttachRollback {
            restore_parent: false,
            restore_style: true,
            restore_ex_style: false,
        },
        AttachFailure::InputGuard => AttachRollback {
            restore_parent: false,
            restore_style: true,
            restore_ex_style: true,
        },
        AttachFailure::SetParent => AttachRollback {
            restore_parent: false,
            restore_style: true,
            restore_ex_style: true,
        },
        AttachFailure::SetWindowPos => AttachRollback {
            restore_parent: true,
            restore_style: true,
            restore_ex_style: true,
        },
        AttachFailure::ParentCheck => AttachRollback {
            restore_parent: true,
            restore_style: true,
            restore_ex_style: true,
        },
    }
}

/// The capacity of the native diagnostic event queue.
pub const NATIVE_EVENT_CAPACITY: usize = 64;

/// The capacity of each queue of clicks taken over by the hook.
pub const NATIVE_POINTER_CAPACITY: usize = 16;

/// A queue that keeps at most `capacity` items (at least one), dropping the
/// oldest when a new one arrives at a full queue.
pub struct BoundedQueue<T> {
    items: VecDeque<T>,
    capacity: usize,
}

impl<T> BoundedQueue<T> {
    #[verifier::type_invariant]
    spec fn within_capacity(self) -> bool {
        self.items@.len() <= if self.capacity == 0 {
            1
        } else {
            self.capacity as int
        }
    }

    pub closed spec fn view(self) -> Seq<T> {
        self.items@
    }

    pub closed spec fn limit(self) -> nat {
        self.capacity as nat
    }

    /// An empty queue.
    pub fn new(capacity: usize) -> (q: Self)
        ensures
            q.view() == Seq::<T>::empty(),
            q.limit() == capacity,
    {
        BoundedQueue { items: VecDeque::new(), capacity }
    }

    /// The number of queued items.
    pub fn len(&self) -> (n: usize)
        ensures
            n == self.view().len(),
            n <= if self.limit() == 0 {
                1
            } else {
                self.limit()
            },
    {
        proof {
            use_type_invariant(self);
        }
        self.items.len()
    }

    /// Appends `item`; at a full queue the oldest item is dropped first.
    pub fn push(&mut self, item: T)
        ensures
            final(self).limit() == old(self).limit(),
            final(self).view().len() <= if final(self).limit() == 0 {
                1
            } else {
                final(self).limit()
            },
            old(self).view().len() >= old(self).limit() && old(self).view().len() > 0 ==> final(self).view() == old(self).view().drop_first().push(item),
            !(old(self).view().len() >= old(self).limit() && old(self).view().len() > 0) ==> final(self).view() == old(self).view().push(item),
    {
        proof {
            use_type_invariant(&*self);
        }
        let mut items = VecDeque::new();
        std::mem::swap(&mut items, &mut self.items);
        if items.len() >= self.capacity {
            let _ = items.pop_front();
        }
        items.push_back(item);
        self.items = items;
    }

    /// Removes and returns every queued item, oldest first.
    pub fn take_all(&mut self) -> (taken: Vec<T>)
        ensures
            taken@ == old(self).view(),
            final(self).view() == Seq::<T>::empty(),
            final(self).limit() == old(self).limit(),
    {
        let mut items = VecDeque::new();
        std::mem::swap(&mut items, &mut self.items);
        let ghost all = items@;
        let mut taken: Vec<T> = Vec::new();
        while items.len() > 0
            invariant
                taken@ + items@ == all,
            decreases items@.len(),
        {
            let ghost before = items@;
            match items.pop_front() {
                Some(item) => {
                    taken.push(item);
                    assert(taken@ + items@ =~= all);
                },
                None => {},
            }
        }
        assert(taken@ =~= all);
        taken
    }
}

/// Whether a window class belongs to WebView2 / Chromium and needs the
/// input guard.
pub fn is_webview_input_window(class_name: &str) -> (r: bool)
    ensures
        r == (class_name@ == "WRY_WEBVIEW"@ || ("Chrome_WidgetWin_"@).is_prefix_of(class_name@)
            || class_name@ == "Chrome_RenderWidgetHostHWND"@),
{
    let prefix = "Chrome_WidgetWin_";
    proof {
        reveal_strlit("Chrome_WidgetWin_");
    }
    let n = class_name.unicode_len();
    let m = prefix.unicode_len();
    let mut starts = n >= m;
    if starts {
        let mut i: usize = 0;
        while i < m
            invariant
                m == prefix@.len(),
                n == class_name@.len(),
                m <= n,
                i <= m,
                starts == forall|j: int| 0 <= j < i ==> prefix@[j] == class_name@[j],
            decreases m - i,
        {
            if prefix.get_char(i) != class_name.get_char(i) {
                starts = false;
            }
            i = i + 1;
        }
    }
    crate::text::chars_equal(class_name, "WRY_WEBVIEW") || starts || crate::text::chars_equal(
        class_name,
        "Chrome_RenderWidgetHostHWND",
    )
}

/// The summary of the input guards installed on WebView2 windows:
/// `guarded=[..]`, then `cross=[..]` and `failed=[..]` when not empty.
pub fn guard_report(guarded: &Vec<String>, cross: &Vec<String>, failed: &Vec<String>) -> (report:
    String)
    ensures
        report@ == "guarded=["@ + joined(guarded@.map_values(|s: String| s@), ","@) + "]"@ + (if cross@.len()
            > 0 {
            " cross=["@ + joined(cross@.map_values(|s: String| s@), ","@) + "]"@
        } else {
            Seq::empty()
        }) + (if failed@.len() > 0 {
            " failed=["@ + joined(failed@.map_values(|s: String| s@), " | "@) + "]"@
        } else {
            Seq::empty()
        }),
{
    let mut report = owned("guarded=[");
    let g = crate::text::join(guarded, ",");
    report.append(g.as_str());
    report.append("]");
    let ghost first = report@;
    if cross.len() > 0 {
        report.append(" cross=[");
        let c = crate::text::join(cross, ",");
        report.append(c.as_str());
        report.append("]");
    }
    let ghost second = report@;
    if failed.len() > 0 {
        report.append(" failed=[");
        let f = crate::text::join(failed, " | ");
        report.append(f.as_str());
        report.append("]");
    }
    report
}

/// The last state the probe reported.
#[derive(Debug)]
pub struct ProbeState {
    pub last_signature: String,
}

/// The probe reports native events, an abnormal Z-order or parent, and a
/// change of what lies under a pointer inside the widget.
pub open spec fn probe_emits(
    last_signature: Seq<char>,
    signature: Seq<char>,
    has_native_events: bool,
    z_order_abnormal: bool,
    parent_abnormal: bool,
    cursor_inside: bool,
) -> bool {
    has_native_events || z_order_abnormal || parent_abnormal || (cursor_inside && last_signature
        != signature)
}

impl ProbeState {
    pub fn new() -> (s: ProbeState)
        ensures
            s.last_signature@ == Seq::<char>::empty(),
    {
        ProbeState { last_signature: String::new() }
    }

    /// Whether this probe is reported; a reported signature is remembered.
    pub fn should_emit(
        &mut self,
        signature: String,
        has_native_events: bool,
        z_order_abnormal: bool,
        parent_abnormal: bool,
        cursor_inside: bool,
    ) -> (emit: bool)
        ensures
            emit == probe_emits(
                old(self).last_signature@,
                signature@,
                has_native_events,
                z_order_abnormal,
                parent_abnormal,
                cursor_inside,
            ),
            emit ==> final(self).last_signature@ == signature@,
            !emit ==> final(self).last_signature@ == old(self).last_signature@,
    {
        let changed = !crate::text::chars_equal(self.last_signature.as_str(), signature.as_str());
        let emit = has_native_events || z_order_abnormal || parent_abnormal || (cursor_inside
            && changed);
        if emit {
            self.last_signature = signature;
        }
        emit
    }
}

/// A hover that does not change is reported once: after a reported probe,
/// the same signature with nothing abnormal and no native events is not
/// reported again.
pub proof fn unchanged_hover_is_reported_once(signature: Seq<char>, inside: bool)
    ensures
        !probe_emits(signature, signature, false, false, false, inside),
{
}

/// The abnormal flags of a probe report.
pub fn probe_flags_text(z_order_abnormal: bool, parent_abnormal: bool) -> (text: String)
    ensures
        text@ == if z_order_abnormal && parent_abnormal {
            " abnormal=[z-order,parent]"@
        } else if z_order_abnormal {
            " abnormal=[z-order]"@
        } else if parent_abnormal {
            " abnormal=[parent]"@
        } else {
            Seq::<char>::empty()
        },
{
    if z_order_abnormal && parent_abnormal {
        owned(" abnormal=[z-order,parent]")
    } else if z_order_abnormal {
        owned(" abnormal=[z-order]")
    } else if parent_abnormal {
        owned(" abnormal=[parent]")
    } else {
        String::new()
    }
}

} // verus!
