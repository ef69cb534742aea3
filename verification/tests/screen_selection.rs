use utranslate::ocr::checked_rgba_len;
use utranslate::screen_capture::{
    checked_pill_rect, crop_bgra_top_down, scaled, dim_alpha, pill_rect, validated_selection, PillAnchor,
    PillRect, PointI, RectI, DIM_ALPHA, DIM_IN_MS,
};

fn rect(left: i32, top: i32, right: i32, bottom: i32) -> RectI {
    RectI {
        left,
        top,
        right,
        bottom,
    }
}

#[test]
fn reversed_drag_is_normalized_in_signed_coordinates() {
    assert_eq!(
        RectI::from_drag(PointI { x: 40, y: 20 }, PointI { x: -10, y: -30 }),
        rect(-10, -30, 40, 20)
    );
}

#[test]
fn negative_origin_selection_is_clamped_to_virtual_desktop() {
    let desktop = rect(-1920, -200, 1920, 1080);
    let monitors = [rect(-1920, -200, 0, 880), rect(0, 0, 1920, 1080)];
    let selection = validated_selection(rect(-2000, -100, -1800, 100), desktop, &monitors)
        .unwrap()
        .unwrap();
    assert_eq!(selection, rect(-1920, -100, -1800, 100));
}

#[test]
fn cross_monitor_selection_keeps_the_full_bounding_rectangle() {
    let desktop = rect(-800, 0, 1200, 900);
    let monitors = [rect(-800, 0, 0, 600), rect(0, 0, 1200, 900)];
    let selection = validated_selection(rect(-50, 100, 50, 200), desktop, &monitors)
        .unwrap()
        .unwrap();
    assert_eq!(selection, rect(-50, 100, 50, 200));
}

#[test]
fn gap_only_and_tiny_selections_are_rejected() {
    let desktop = rect(0, 0, 300, 100);
    let monitors = [rect(0, 0, 100, 100), rect(200, 0, 300, 100)];
    assert!(validated_selection(rect(120, 10, 180, 50), desktop, &monitors).is_err());
    assert_eq!(
        validated_selection(rect(10, 10, 12, 80), desktop, &monitors).unwrap(),
        None
    );
}

#[test]
fn invalid_overflow_and_oversized_dimensions_are_rejected() {
    assert!(RectI::from_origin_size(i32::MAX, 0, 1, 1).is_err());
    assert!(RectI::from_origin_size(0, 0, 0, 1).is_err());
    assert!(checked_rgba_len(16_384, 16_384).is_err());
}

#[test]
fn selection_moves_into_window_coordinates_without_overflow() {
    assert_eq!(
        rect(100, 50, 300, 250).relative_to(rect(100, 50, 1000, 900)),
        rect(0, 0, 200, 200)
    );
    // A selection on a neighbouring monitor: coordinates go negative without overflow.
    assert_eq!(
        rect(i32::MIN, i32::MIN, -10, -10).relative_to(rect(0, 0, 100, 100)),
        rect(i32::MIN, i32::MIN, -10, -10)
    );
}

#[test]
fn crop_converts_bgra_to_opaque_rgba_without_flipping_rows() {
    // Top row: red, green. Bottom row: blue, white. Alpha bytes are intentionally varied.
    let pixels = [0, 0, 255, 0, 0, 255, 0, 17, 255, 0, 0, 99, 255, 255, 255, 1];
    let result = crop_bgra_top_down(&pixels, rect(-1, -1, 1, 1), rect(-1, -1, 1, 1)).unwrap();
    assert_eq!(result.width, 2);
    assert_eq!(result.height, 2);
    assert_eq!((result.left, result.top), (-1, -1));
    assert_eq!(
        result.rgba,
        [255, 0, 0, 255, 0, 255, 0, 255, 0, 0, 255, 255, 255, 255, 255, 255,]
    );
}

#[test]
fn crop_rejects_short_source_buffer() {
    let error = crop_bgra_top_down(&[0; 15], rect(0, 0, 2, 2), rect(0, 0, 2, 2)).unwrap_err();
    assert!(error.contains("короче"));
}

#[test]
fn dimming_eases_out_and_stops_at_the_final_alpha() {
    assert_eq!(dim_alpha(0, false), 0);
    assert_eq!(dim_alpha(DIM_IN_MS, false), DIM_ALPHA);
    assert_eq!(dim_alpha(DIM_IN_MS * 5, false), DIM_ALPHA);
    for elapsed in 0..=(DIM_IN_MS * 3) {
        assert!(dim_alpha(elapsed, false) <= DIM_ALPHA);
    }
    let half = dim_alpha(DIM_IN_MS / 2, false);
    assert!(half > DIM_ALPHA / 2 && half < DIM_ALPHA);
    assert!(dim_alpha(10, false) < dim_alpha(20, false));
}

#[test]
fn pill_is_centred_and_kept_on_the_surface() {
    let pill = pill_rect(100, 20, 14, 8, PillAnchor::TopCenter { center_x: 960, top: 16 });
    assert_eq!(pill, PillRect { left: 896, top: 16, width: 128, height: 36 });
    let clamped = pill_rect(100, 20, 14, 8, PillAnchor::TopCenter { center_x: 10, top: 16 });
    assert_eq!(clamped.left, 0);
}

#[test]
fn size_pill_goes_below_the_selection_unless_it_would_leave_the_surface() {
    let anchor = |right, bottom, limit_width| PillAnchor::BottomRight {
        right,
        bottom,
        gap: 8,
        limit_width,
        limit_height: 1080,
    };
    let below = pill_rect(100, 20, 14, 8, anchor(500, 400, 1920));
    assert_eq!(below, PillRect { left: 372, top: 408, width: 128, height: 36 });
    let above = pill_rect(100, 20, 14, 8, anchor(500, 1060, 1920));
    assert_eq!(above.top, 1016);
    let inside = pill_rect(100, 20, 14, 8, anchor(1900, 400, 1800));
    assert_eq!(inside.left, 1672);
}

#[test]
fn pill_geometry_that_overflows_is_refused() {
    assert_eq!(
        checked_pill_rect(i32::MAX, 20, 14, 8, PillAnchor::TopCenter { center_x: 0, top: 0 }),
        None
    );
    assert_eq!(
        checked_pill_rect(100, 20, 14, 8, PillAnchor::TopCenter { center_x: 960, top: 16 }),
        Some(PillRect { left: 896, top: 16, width: 128, height: 36 })
    );
}

#[test]
fn scaling_follows_the_dpi_as_a_signed_factor() {
    assert_eq!(scaled(14, 96), 14);
    assert_eq!(scaled(14, 192), 28);
    assert_eq!(scaled(8, 0), 1);
    assert_eq!(scaled(1, u32::MAX), 1);
}
