use desk_pet::window::position::{apply_window_position, current_window_left_top, WindowLayout, WindowPosition};

fn layout() -> WindowLayout {
    WindowLayout {
        anchor_left: false,
        anchor_right: false,
        anchor_top: false,
        anchor_bottom: false,
        margin_left: 11,
        margin_right: 22,
        margin_top: 33,
        margin_bottom: 44,
        alloc_width: 200,
        alloc_height: 100,
        monitor_size: Some((1000, 800)),
    }
}

#[test]
fn left_and_top_anchors_use_their_margins() {
    let mut l = layout();
    l.anchor_left = true;
    l.anchor_top = true;
    l.anchor_right = true;
    l.anchor_bottom = true;
    assert_eq!(current_window_left_top(&l), (11, 33));
}

#[test]
fn right_and_bottom_anchors_measure_from_the_far_edges() {
    let mut l = layout();
    l.anchor_right = true;
    l.anchor_bottom = true;
    assert_eq!(current_window_left_top(&l), (1000 - 200 - 22, 800 - 100 - 44));
}

#[test]
fn unanchored_window_uses_left_and_top_margins() {
    assert_eq!(current_window_left_top(&layout()), (11, 33));
}

#[test]
fn unknown_monitor_and_empty_allocation_use_fallbacks() {
    let mut l = layout();
    l.anchor_right = true;
    l.anchor_bottom = true;
    l.monitor_size = None;
    l.alloc_width = 0;
    l.alloc_height = -5;
    assert_eq!(current_window_left_top(&l), (1920 - 1 - 22, 1080 - 1 - 44));
}

#[test]
fn applying_a_position_anchors_left_top_and_reads_back() {
    let mut l = layout();
    l.anchor_right = true;
    l.anchor_bottom = true;
    apply_window_position(&mut l, WindowPosition { left: 120, top: 64 });
    assert!(l.anchor_left && l.anchor_top && !l.anchor_right && !l.anchor_bottom);
    assert_eq!((l.margin_left, l.margin_top), (120, 64));
    assert_eq!((l.margin_right, l.margin_bottom), (22, 44));
    assert_eq!(current_window_left_top(&l), (120, 64));
}

#[test]
fn reading_then_restoring_keeps_the_window_in_place() {
    let mut l = layout();
    l.anchor_right = true;
    l.anchor_top = true;
    let (left, top) = current_window_left_top(&l);
    apply_window_position(&mut l, WindowPosition { left, top });
    assert_eq!(current_window_left_top(&l), (778, 33));
}
