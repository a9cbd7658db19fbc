use hw_cpu::gfx::{
    bar_width_px, line_y_offset, percent_string, text_point, text_point_right, BAR_WIDTH,
};

#[test]
fn line_offsets_step_by_cell_and_padding() {
    assert_eq!(line_y_offset(0), 3);
    assert_eq!(line_y_offset(1), 29);
    assert_eq!(line_y_offset(2), 55);
    assert_eq!(line_y_offset(3), 81);
}

#[test]
fn text_points_sit_on_the_baseline() {
    assert_eq!(text_point(3, 0), (3, 18));
    assert_eq!(text_point(3, 2), (3, 70));
}

#[test]
fn right_aligned_text_ends_at_the_padded_edge() {
    // Nine characters of ten pixels each, ending at x = 237.
    assert_eq!(text_point_right(0, "50.0% Avg"), (237 - 90, 18));
}

#[test]
fn bar_width_scales_and_clips() {
    assert_eq!(bar_width_px(0), 0);
    assert_eq!(bar_width_px(5000), (BAR_WIDTH - 1) / 2);
    assert_eq!(bar_width_px(10000), BAR_WIDTH - 1);
    // Loads above full scale clip to the bar.
    assert_eq!(bar_width_px(20000), BAR_WIDTH - 1);
}

#[test]
fn percent_string_formats_fixed_width() {
    assert_eq!(percent_string(5000, true), "50.0");
    assert_eq!(percent_string(5000, false), "50");
    // Small loads keep a leading space in the tens column.
    assert_eq!(percent_string(55, true), " 0.5");
    assert_eq!(percent_string(950, false), " 9");
    // Full scale and beyond clip at 99.9.
    assert_eq!(percent_string(10000, true), "99.9");
    assert_eq!(percent_string(u32::MAX, true), "99.9");
    assert_eq!(percent_string(0, true), " 0.0");
}
