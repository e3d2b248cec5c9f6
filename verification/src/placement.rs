//! Where the plugin popup and the settings window are put on screen, in
//! physical pixels, and which DPI a monitor is treated as having.

use vstd::prelude::*;

verus! {

/// `i32::saturating_add`.
pub open spec fn sat_add(a: i32, b: i32) -> i32 {
    if a + b > i32::MAX {
        i32::MAX
    } else if a + b < i32::MIN {
        i32::MIN
    } else {
        (a + b) as i32
    }
}

/// `i32::saturating_sub`.
pub open spec fn sat_sub(a: i32, b: i32) -> i32 {
    if a - b > i32::MAX {
        i32::MAX
    } else if a - b < i32::MIN {
        i32::MIN
    } else {
        (a - b) as i32
    }
}

fn saturating_add_i32(a: i32, b: i32) -> (r: i32)
    ensures
        r == sat_add(a, b),
{
    let s = a as i64 + b as i64;
    if s > i32::MAX as i64 {
        i32::MAX
    } else if s < i32::MIN as i64 {
        i32::MIN
    } else {
        s as i32
    }
}

fn saturating_sub_i32(a: i32, b: i32) -> (r: i32)
    ensures
        r == sat_sub(a, b),
{
    let s = a as i64 - b as i64;
    if s > i32::MAX as i64 {
        i32::MAX
    } else if s < i32::MIN as i64 {
        i32::MIN
    } else {
        s as i32
    }
}

/// The work area of a monitor (the screen without the taskbar).
#[derive(Debug, Clone, Copy, PartialEq, Eq, Structural)]
pub struct WorkArea {
    pub left: i32,
    pub top: i32,
    pub right: i32,
    pub bottom: i32,
}

/// The popup's rectangle in physical pixels.
#[derive(Debug, Clone, Copy, PartialEq, Eq, Structural)]
pub struct PopupPlacement {
    pub x: i32,
    pub y: i32,
    pub width: i32,
    pub height: i32,
}

/// `max(v, lo)` then, when the range is not empty, `v` clamped into it;
/// an empty range puts the edge at `fallback`.
pub open spec fn clamp_or(v: int, lo: int, hi: int, fallback: int) -> int {
    if hi >= lo {
        if v < lo {
            lo
        } else if v > hi {
            hi
        } else {
            v
        }
    } else {
        fallback
    }
}

/// The margin kept to the work area's edges: the gap, at least 4 pixels.
pub open spec fn popup_margin(gap: i32) -> int {
    if gap > 4 {
        gap as int
    } else {
        4
    }
}

/// The popup rectangle: centred over the anchor and `gap` pixels above the
/// taskbar's top edge; with a known work area, shrunk to fit inside it
/// with a margin, and pushed inside it.
pub open spec fn popup_placement_spec(
    anchor_x: i32,
    taskbar_top: i32,
    width: i32,
    height: i32,
    gap: i32,
    work: Option<WorkArea>,
) -> PopupPlacement {
    match work {
        None => PopupPlacement {
            x: (anchor_x - width / 2) as i32,
            y: (taskbar_top - height - gap) as i32,
            width,
            height,
        },
        Some(w) => {
            let margin = popup_margin(gap);
            let available_width = if w.right - w.left - margin * 2 > 1 {
                w.right - w.left - margin * 2
            } else {
                1
            };
            let available_height = if w.bottom - w.top - margin * 2 > 1 {
                w.bottom - w.top - margin * 2
            } else {
                1
            };
            let fw = if width < available_width {
                width as int
            } else {
                available_width
            };
            let fh = if height < available_height {
                height as int
            } else {
                available_height
            };
            let min_x = sat_add(w.left, margin as i32);
            let max_x = sat_sub(sat_sub(w.right, fw as i32), margin as i32);
            let min_y = sat_add(w.top, margin as i32);
            let max_y = sat_sub(sat_sub(w.bottom, fh as i32), margin as i32);
            PopupPlacement {
                x: clamp_or(anchor_x - fw / 2, min_x as int, max_x as int, w.left as int) as i32,
                y: clamp_or(taskbar_top - fh - gap, min_y as int, max_y as int, w.top as int) as i32,
                width: fw as i32,
                height: fh as i32,
            }
        },
    }
}

/// Places the plugin popup of `width` x `height` pixels (at least 1 each)
/// for an anchor at `anchor_x` on a taskbar whose top is `taskbar_top`.
pub fn place_popup(
    anchor_x: i32,
    taskbar_top: i32,
    width: i32,
    height: i32,
    gap: i32,
    work: Option<WorkArea>,
) -> (p: PopupPlacement)
    requires
        width >= 1,
        height >= 1,
        gap >= 0,
        anchor_x - width / 2 >= i32::MIN,
        taskbar_top - height - gap >= i32::MIN,
        gap * 2 <= i32::MAX,
        work matches Some(w) ==> i32::MIN <= w.right - w.left <= i32::MAX,
        work matches Some(w) ==> i32::MIN <= w.bottom - w.top <= i32::MAX,
        work matches Some(w) ==> i32::MIN <= w.right - w.left - popup_margin(gap) * 2 <= i32::MAX,
        work matches Some(w) ==> i32::MIN <= w.bottom - w.top - popup_margin(gap) * 2 <= i32::MAX,
    ensures
        p == popup_placement_spec(anchor_x, taskbar_top, width, height, gap, work),
{
    match work {
        None => PopupPlacement {
            x: anchor_x - width / 2,
            y: taskbar_top - height - gap,
            width,
            height,
        },
        Some(w) => {
            let margin: i32 = if gap > 4 {
                gap
            } else {
                4
            };
            let span_x = w.right - w.left - margin * 2;
            let available_width = if span_x > 1 {
                span_x
            } else {
                1
            };
            let span_y = w.bottom - w.top - margin * 2;
            let available_height = if span_y > 1 {
                span_y
            } else {
                1
            };
            let fw = if width < available_width {
                width
            } else {
                available_width
            };
            let fh = if height < available_height {
                height
            } else {
                available_height
            };
            let x = anchor_x - fw / 2;
            let y = taskbar_top - fh - gap;
            let min_x = saturating_add_i32(w.left, margin);
            let max_x = saturating_sub_i32(saturating_sub_i32(w.right, fw), margin);
            let min_y = saturating_add_i32(w.top, margin);
            let max_y = saturating_sub_i32(saturating_sub_i32(w.bottom, fh), margin);
            let px = if max_x >= min_x {
                if x < min_x {
                    min_x
                } else if x > max_x {
                    max_x
                } else {
                    x
                }
            } else {
                w.left
            };
            let py = if max_y >= min_y {
                if y < min_y {
                    min_y
                } else if y > max_y {
                    max_y
                } else {
                    y
                }
            } else {
                w.top
            };
            PopupPlacement { x: px, y: py, width: fw, height: fh }
        },
    }
}

/// A popup placed in a work area lies inside it whenever it fits with its
/// margins; it is never wider or taller than asked.
pub proof fn popup_stays_in_work_area(
    anchor_x: i32,
    taskbar_top: i32,
    width: i32,
    height: i32,
    gap: i32,
    w: WorkArea,
)
    requires
        width >= 1,
        height >= 1,
        gap >= 0,
        gap * 2 <= i32::MAX,
        i32::MIN <= w.right - w.left - popup_margin(gap) * 2 <= i32::MAX,
        i32::MIN <= w.bottom - w.top - popup_margin(gap) * 2 <= i32::MAX,
        w.right - w.left - popup_margin(gap) * 2 >= 1,
        w.bottom - w.top - popup_margin(gap) * 2 >= 1,
    ensures
        ({
            let p = popup_placement_spec(anchor_x, taskbar_top, width, height, gap, Some(w));
            &&& 1 <= p.width <= width
            &&& 1 <= p.height <= height
            &&& w.left <= p.x
            &&& p.x + p.width <= w.right
            &&& w.top <= p.y
            &&& p.y + p.height <= w.bottom
        }),
{
}

/// The monitor DPI used for scaling: the reported one when the query
/// succeeded with a positive value, else 96.
pub fn effective_dpi(query_result: i32, dpi_x: u32) -> (dpi: u32)
    ensures
        dpi == if query_result >= 0 && dpi_x > 0 {
            dpi_x
        } else {
            96
        },
{
    if query_result >= 0 && dpi_x > 0 {
        dpi_x
    } else {
        96
    }
}

/// A work area that has width and height.
pub fn work_area_usable(work: WorkArea) -> (r: bool)
    ensures
        r == (work.right > work.left && work.bottom > work.top),
{
    work.right > work.left && work.bottom > work.top
}

/// The top-left corner that centres a window of `width` x `height` in the
/// work area (at the work area's corner when it does not fit).
pub open spec fn centered_origin_spec(work: WorkArea, width: i32, height: i32) -> (int, int) {
    let work_width = sat_sub(work.right, work.left);
    let work_height = sat_sub(work.bottom, work.top);
    let free_x = if work_width - width > 0 {
        work_width - width
    } else {
        0
    };
    let free_y = if work_height - height > 0 {
        work_height - height
    } else {
        0
    };
    (work.left + free_x / 2, work.top + free_y / 2)
}

/// Centres the settings window in the work area.
pub fn centered_origin(work: WorkArea, width: i32, height: i32) -> (origin: (i32, i32))
    requires
        i32::MIN <= sat_sub(work.right, work.left) - width <= i32::MAX,
        i32::MIN <= sat_sub(work.bottom, work.top) - height <= i32::MAX,
        i32::MIN <= centered_origin_spec(work, width, height).0 <= i32::MAX,
        i32::MIN <= centered_origin_spec(work, width, height).1 <= i32::MAX,
    ensures
        origin.0 == centered_origin_spec(work, width, height).0,
        origin.1 == centered_origin_spec(work, width, height).1,
{
    let work_width = saturating_sub_i32(work.right, work.left);
    let work_height = saturating_sub_i32(work.bottom, work.top);
    let dx = work_width - width;
    let dy = work_height - height;
    let free_x = if dx > 0 {
        dx
    } else {
        0
    };
    let free_y = if dy > 0 {
        dy
    } else {
        0
    };
    (work.left + free_x / 2, work.top + free_y / 2)
}

} // verus!
