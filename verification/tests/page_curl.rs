use pinpoint::page_curl::{
    density, density_with_override, straight_columns, straight_indices, tiles_override, MAX_ANGLED_TILES,
    MAX_STRAIGHT_TILES, MIN_STRAIGHT_TILES,
};

#[test]
fn density_scales_but_is_bounded() {
    assert_eq!(density(640, 360, 1, false), MIN_STRAIGHT_TILES);
    assert!(density(1920, 1080, 1, false) > MIN_STRAIGHT_TILES);
    assert_eq!(density(7680, 4320, 2, false), MAX_STRAIGHT_TILES);
    assert_eq!(density(7680, 4320, 2, true), MAX_ANGLED_TILES);
}

#[test]
fn density_is_one_tile_per_target_pixels() {
    assert_eq!(density(1920, 1080, 1, false), 40);
    assert_eq!(density(1921, 1080, 1, false), 41);
    assert_eq!(density(1920, 1080, 1, true), 8);
    assert_eq!(density(1920, 1080, 0, true), 8);
    assert_eq!(density(100, 100, 1, true), 6);
}

#[test]
fn tile_override_is_clamped_and_wins() {
    assert_eq!(tiles_override("0"), Some(1));
    assert_eq!(tiles_override("500"), Some(64));
    assert_eq!(tiles_override("+12"), Some(12));
    assert_eq!(tiles_override("twelve"), None);
    assert_eq!(tiles_override(""), None);
    assert_eq!(density_with_override(Some("20"), 7680, 4320, 2, true), 20);
    assert_eq!(density_with_override(Some("x"), 640, 360, 1, false), 16);
    assert_eq!(density_with_override(None, 640, 360, 1, false), 16);
}

#[test]
fn straight_columns_keep_first_occurrence_order() {
    // Two tiles: rows of three vertices (0 1 2 / 3 4 5 / 6 7 8).
    let indices = vec![1, 2, 8, 0, 1, 7, 1, 2, 8, 0];
    assert_eq!(straight_columns(&indices, 2), vec![1, 0]);
    let quads = straight_indices(&indices, 2, &vec![true, false]);
    assert_eq!(quads, vec![1, 8, 7, 1, 2, 8, 0, 1, 7, 0, 7, 6]);
}
