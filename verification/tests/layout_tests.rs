use ggoled::engine::ShiftMode;
use ggoled::layout::ConfigShiftMode;
use ggoled::layout::DrawPos;
use ggoled::layout::center_bitmap;
use ggoled::layout::get_idle_seconds;
use ggoled::layout::plan_text_layers;

#[test]
fn centering_rounds_toward_zero() {
    assert_eq!(center_bitmap(128, 64, 100, 20), (14, 22));
    assert_eq!(center_bitmap(128, 64, 127, 63), (0, 0));
    // a bitmap larger than the screen centers at a negative offset
    assert_eq!(center_bitmap(128, 64, 200, 100), (-36, -18));
    assert_eq!(center_bitmap(128, 64, 129, 65), (0, 0));
}

#[test]
fn text_lines_stack_by_line_height() {
    let sizes = vec![(40, 14), (60, 14), (20, 14)];
    let plans = plan_text_layers(128, 64, &sizes, 16, None, Some(5));
    assert_eq!(plans.len(), 3);
    assert_eq!(plans[0].y, 5);
    assert_eq!(plans[1].y, 21);
    assert_eq!(plans[2].y, 37);
    assert!(!plans[0].scroll);
    assert_eq!(plans[0].x, (128 - 40) / 2);
    assert_eq!(plans[1].x, (128 - 60) / 2);
}

#[test]
fn text_block_centers_vertically_by_default() {
    let sizes = vec![(10, 14), (10, 14)];
    let plans = plan_text_layers(128, 64, &sizes, 16, Some(3), None);
    // block of 2 * 16 = 32 centers at (64 - 32) / 2 = 16
    assert_eq!(plans[0].y, 16);
    assert_eq!(plans[1].y, 32);
    assert_eq!(plans[0].x, 3);
    assert_eq!(plans[1].x, 3);
}

#[test]
fn wide_text_line_becomes_a_scroll_layer() {
    let sizes = vec![(128, 14), (127, 14)];
    let plans = plan_text_layers(128, 64, &sizes, 16, None, Some(0));
    assert!(plans[0].scroll);
    assert!(!plans[1].scroll);
}

#[test]
fn draw_pos_to_option() {
    assert_eq!(DrawPos::Coord(17).to_option(), Some(17));
    assert_eq!(DrawPos::Coord(-3).to_option(), Some(-3));
    assert_eq!(DrawPos::Center.to_option(), None);
}

#[test]
fn config_shift_mode_maps_to_engine_mode() {
    assert_eq!(ConfigShiftMode::Off.to_api(), ShiftMode::Off);
    assert_eq!(ConfigShiftMode::Simple.to_api(), ShiftMode::Simple);
    assert_eq!(ConfigShiftMode::default(), ConfigShiftMode::Simple);
}

#[test]
fn idle_probe_reports_zero() {
    assert_eq!(get_idle_seconds(), 0);
}
