use utranslate::ocr::{
    add_crop_pixels, add_detection_count, check_text_box, checked_rgba_len, crop_area, ctc_keys, ctc_text,
    axis_origins, edge_pad_rgb, should_unload, tile_origins, IDLE_UNLOAD_MS,
};

/// Checks a batch of detected boxes as recognition does: each box's shape, then the running
/// total of the crop areas. The boxes here are axis-aligned, so their edge lengths are exact.
fn validate_crop_batch(width: u32, height: u32, boxes: &[Vec<(u32, u32)>]) -> Result<(), String> {
    let mut total = 0u64;
    for points in boxes {
        check_text_box(points, width, height)?;
        let w = u64::from(points[0].0.abs_diff(points[1].0)).max(1);
        let h = u64::from(points[0].1.abs_diff(points[3].1)).max(1);
        total = add_crop_pixels(total, crop_area(w, h)?)?;
    }
    Ok(())
}

#[test]
fn rejects_invalid_and_oversized_buffers() {
    assert!(checked_rgba_len(0, 1).is_err());
    assert!(checked_rgba_len(16_384, 16_384).is_err());
    assert_eq!(checked_rgba_len(2, 3).unwrap(), 24);
}

#[test]
fn engine_is_released_only_after_three_idle_minutes() {
    assert!(!should_unload(0, 0));
    assert!(!should_unload(IDLE_UNLOAD_MS, 0));
    assert!(should_unload(IDLE_UNLOAD_MS + 1, 0));
    // A timestamp from the future (a request started between two reads) never unloads.
    assert!(!should_unload(1_000, 10_000));
}

#[test]
fn tiles_cover_large_images_with_overlap_and_bound_count() {
    let tiles = tile_origins(1920, 1080).unwrap();
    assert_eq!(tiles.first().copied(), Some((0, 0, 1920, 1080)));
    let last = tiles.last().copied().unwrap();
    assert_eq!(last.0 + last.2, 1920);
    assert_eq!(last.1 + last.3, 1080);
    assert!(tile_origins(300_000, 1).is_err());
}

#[test]
fn raw_detection_limit_accumulates_across_tiles() {
    let first_tile = add_detection_count(0, 1_500).unwrap();
    assert_eq!(first_tile, 1_500);
    let error = add_detection_count(first_tile, 501).unwrap_err();
    assert!(error.contains("слишком много фрагментов"));
}

#[test]
fn ctc_contract_collapses_before_removing_blank() {
    let dict: Vec<String> = ["", "a", "b", " "].iter().map(|s| s.to_string()).collect();
    let indices = [0usize, 1, 1, 0, 1, 2, 2, 3];
    let (text, _) = ctc_text(&indices, &dict);
    assert_eq!(text, "aab ");
}

#[test]
fn padding_repeats_only_pixels_inside_selection() {
    // A 2x1 image: pixel (0, 0) is [1, 2, 3], pixel (1, 0) is [4, 5, 6].
    let image = [1u8, 2, 3, 4, 5, 6];
    let padded = edge_pad_rgb(&image, 2, 1, 1);
    // The padded image is 4x3.
    assert_eq!(padded.len(), 3 * 4 * 3);
    assert_eq!(&padded[0..3], &[1, 2, 3]);
    let last = (2 * 4 + 3) * 3;
    assert_eq!(&padded[last..last + 3], &[4, 5, 6]);
}

#[test]
fn rejects_malformed_or_out_of_bounds_crop_boxes() {
    assert!(validate_crop_batch(100, 100, &[vec![(0, 0), (50, 0), (50, 50)]]).is_err());
    assert!(validate_crop_batch(100, 100, &[vec![(0, 0), (101, 0), (101, 50), (0, 50)]]).is_err());
    assert!(validate_crop_batch(100, 100, &[vec![(0, 0), (100, 100), (0, 100), (100, 0)]]).is_err());
}

#[test]
fn rejects_pathological_overlapping_crop_allocation() {
    let boxes: Vec<_> = (0..5)
        .map(|_| vec![(0, 0), (2_048, 0), (2_048, 2_048), (0, 2_048)])
        .collect();
    let error = validate_crop_batch(2_048, 2_048, &boxes).unwrap_err();
    assert!(error.contains("площадь OCR-crop"));
}

#[test]
fn dictionary_lines_become_classes_between_blank_and_space() {
    assert_eq!(ctc_keys("a\r\nb\n"), vec!["", "a", "b", " "]);
    assert_eq!(ctc_keys("a\n\n"), vec!["", "a", "", " "]);
    assert_eq!(ctc_keys(""), vec!["", "", " "]);
    assert_eq!(ctc_keys("x\r\r"), vec!["", "x", " "]);
}

#[test]
fn a_length_that_fits_is_one_tile_whatever_the_side() {
    assert_eq!(axis_origins(10, 10), vec![0]);
    assert_eq!(axis_origins(0, 0), vec![0]);
}

#[test]
fn padding_without_border_keeps_an_empty_image_empty() {
    assert!(edge_pad_rgb(&[], 0, 0, 0).is_empty());
    assert!(edge_pad_rgb(&[], 0, 3, 0).is_empty());
    assert_eq!(edge_pad_rgb(&[1, 2, 3], 1, 1, 0), vec![1, 2, 3]);
}

#[test]
fn blank_steps_need_no_class_text() {
    let (text, kept) = ctc_text(&[0, 0], &[]);
    assert_eq!(text, "");
    assert_eq!(kept, vec![false, false]);
}
