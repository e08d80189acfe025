use raytrace::raster::{pixel_at, pixel_index};

#[test]
fn first_pixel_is_top_left() {
    assert_eq!(pixel_at(0, 4, 3), (0, 2));
}

#[test]
fn last_pixel_is_bottom_right() {
    assert_eq!(pixel_at(11, 4, 3), (3, 0));
}

#[test]
fn rows_run_left_to_right() {
    assert_eq!(pixel_at(3, 4, 3), (3, 2));
    assert_eq!(pixel_at(4, 4, 3), (0, 1));
    assert_eq!(pixel_at(6, 4, 3), (2, 1));
}

#[test]
fn index_and_pixel_round_trip() {
    for k in 0..12u64 {
        let (i, j) = pixel_at(k, 4, 3);
        assert_eq!(pixel_index(i, j, 4, 3), k);
    }
    assert_eq!(pixel_index(0, 2, 4, 3), 0);
    assert_eq!(pixel_index(1, 0, 4, 3), 9);
}

#[test]
fn largest_image() {
    let w = u32::MAX;
    let h = u32::MAX;
    let last = w as u64 * h as u64 - 1;
    assert_eq!(pixel_at(last, w, h), (w - 1, 0));
    assert_eq!(pixel_index(w - 1, 0, w, h), last);
}
