//! Window coordinates, always expressed as a left/top position so that they
//! can be saved and restored.

use vstd::prelude::*;

verus! {

/// Monitor size assumed when the window's monitor is unknown.
pub const FALLBACK_MONITOR_WIDTH: i32 = 1920;

/// Monitor size assumed when the window's monitor is unknown.
pub const FALLBACK_MONITOR_HEIGHT: i32 = 1080;

/// A saved window position: the distance of the window's top-left corner from
/// the monitor's top-left corner.
#[derive(Clone, Copy, Debug, PartialEq, Eq, Structural)]
pub struct WindowPosition {
    pub left: i32,
    pub top: i32,
}

/// The layer-shell state of the pet window: which monitor edges it is
/// anchored to, its margin from each edge, its allocated size, and the size
/// of its monitor when that is known.
#[derive(Clone, Copy, Debug)]
pub struct WindowLayout {
    pub anchor_left: bool,
    pub anchor_right: bool,
    pub anchor_top: bool,
    pub anchor_bottom: bool,
    pub margin_left: i32,
    pub margin_right: i32,
    pub margin_top: i32,
    pub margin_bottom: i32,
    pub alloc_width: i32,
    pub alloc_height: i32,
    pub monitor_size: Option<(i32, i32)>,
}

/// The larger of `v` and 1.
pub open spec fn at_least_one(v: i32) -> int {
    if v < 1 {
        1
    } else {
        v as int
    }
}

/// The monitor width used for placement.
pub open spec fn monitor_width(l: WindowLayout) -> int {
    match l.monitor_size {
        Some(s) => s.0 as int,
        None => FALLBACK_MONITOR_WIDTH as int,
    }
}

/// The monitor height used for placement.
pub open spec fn monitor_height(l: WindowLayout) -> int {
    match l.monitor_size {
        Some(s) => s.1 as int,
        None => FALLBACK_MONITOR_HEIGHT as int,
    }
}

/// The window's distance from the monitor's left edge: its left margin when
/// anchored left (or to neither side), else what the right anchor and margin
/// leave of the monitor width.
pub open spec fn left_of(l: WindowLayout) -> int {
    if l.anchor_left {
        l.margin_left as int
    } else if l.anchor_right {
        monitor_width(l) - at_least_one(l.alloc_width) - l.margin_right
    } else {
        l.margin_left as int
    }
}

/// The window's distance from the monitor's top edge, as `left_of` does it
/// for the vertical axis.
pub open spec fn top_of(l: WindowLayout) -> int {
    if l.anchor_top {
        l.margin_top as int
    } else if l.anchor_bottom {
        monitor_height(l) - at_least_one(l.alloc_height) - l.margin_bottom
    } else {
        l.margin_top as int
    }
}

/// The left/top position of the layout fits in `i32`.
pub open spec fn left_top_fits(l: WindowLayout) -> bool {
    &&& i32::MIN <= left_of(l) <= i32::MAX
    &&& i32::MIN <= top_of(l) <= i32::MAX
}

/// The window's current top-left position, converted to left/top terms.
pub fn current_window_left_top(layout: &WindowLayout) -> (r: (i32, i32))
    requires
        left_top_fits(*layout),
    ensures
        r.0 == left_of(*layout),
        r.1 == top_of(*layout),
{
    let win_w = if layout.alloc_width < 1 { 1 } else { layout.alloc_width };
    let win_h = if layout.alloc_height < 1 { 1 } else { layout.alloc_height };
    let (mon_w, mon_h) = match layout.monitor_size {
        Some(s) => s,
        None => (FALLBACK_MONITOR_WIDTH, FALLBACK_MONITOR_HEIGHT),
    };
    let left = if layout.anchor_left {
        layout.margin_left
    } else if layout.anchor_right {
        let lw: i64 = mon_w as i64 - win_w as i64 - layout.margin_right as i64;
        lw as i32
    } else {
        layout.margin_left
    };
    let top = if layout.anchor_top {
        layout.margin_top
    } else if layout.anchor_bottom {
        let th: i64 = mon_h as i64 - win_h as i64 - layout.margin_bottom as i64;
        th as i32
    } else {
        layout.margin_top
    };
    (left, top)
}

/// Anchors the window to the left and top edges only, with the saved
/// position as its left and top margins; the other margins and the size are
/// kept.
pub fn apply_window_position(layout: &mut WindowLayout, position: WindowPosition)
    ensures
        final(layout).anchor_left,
        final(layout).anchor_top,
        !final(layout).anchor_right,
        !final(layout).anchor_bottom,
        final(layout).margin_left == position.left,
        final(layout).margin_top == position.top,
        final(layout).margin_right == old(layout).margin_right,
        final(layout).margin_bottom == old(layout).margin_bottom,
        final(layout).alloc_width == old(layout).alloc_width,
        final(layout).alloc_height == old(layout).alloc_height,
        final(layout).monitor_size == old(layout).monitor_size,
{
    layout.anchor_left = true;
    layout.anchor_top = true;
    layout.anchor_right = false;
    layout.anchor_bottom = false;
    layout.margin_left = position.left;
    layout.margin_top = position.top;
}

/// Restoring a saved position and reading the position back gives the saved
/// position.
pub proof fn lemma_apply_then_read(before: WindowLayout, after: WindowLayout, position: WindowPosition)
    requires
        after.anchor_left,
        after.anchor_top,
        !after.anchor_right,
        !after.anchor_bottom,
        after.margin_left == position.left,
        after.margin_top == position.top,
    ensures
        left_top_fits(after),
        left_of(after) == position.left,
        top_of(after) == position.top,
{
}

/// Reading the position of a window and restoring it leaves the window where
/// it was on the monitor: the left (top) edge stays at the same distance from
/// the monitor's left (top) edge, whichever edges it was anchored to.
pub proof fn lemma_read_then_apply(layout: WindowLayout, after: WindowLayout)
    requires
        left_top_fits(layout),
        after.anchor_left,
        after.anchor_top,
        !after.anchor_right,
        !after.anchor_bottom,
        after.margin_left == left_of(layout),
        after.margin_top == top_of(layout),
        after.alloc_width == layout.alloc_width,
        after.alloc_height == layout.alloc_height,
        after.monitor_size == layout.monitor_size,
    ensures
        left_of(after) == left_of(layout),
        top_of(after) == top_of(layout),
        layout.anchor_right && !layout.anchor_left ==> left_of(after) + at_least_one(after.alloc_width)
            + layout.margin_right == monitor_width(after),
        layout.anchor_bottom && !layout.anchor_top ==> top_of(after) + at_least_one(after.alloc_height)
            + layout.margin_bottom == monitor_height(after),
{
}

} // verus!
