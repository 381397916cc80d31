use desk_pet::interaction::input_region::{
    create_region_from_pixbuf_scaled, image_input_region, PixelData, RectangleInt,
};

fn rect(x: i32, y: i32, width: i32, height: i32) -> RectangleInt {
    RectangleInt { x, y, width, height }
}

/// An RGBA image of `w` by `h` whose alpha bytes are `alphas`, row by row.
fn rgba(w: i32, h: i32, alphas: &[u8]) -> PixelData {
    let mut bytes = Vec::new();
    for a in alphas {
        bytes.extend_from_slice(&[10, 20, 30, *a]);
    }
    PixelData { width: w, height: h, has_alpha: true, n_channels: 4, rowstride: w * 4, bytes: Some(bytes) }
}

#[test]
fn opaque_runs_become_rows_of_rectangles() {
    // Row 0: . X X .   Row 1: X . . X
    let img = rgba(4, 2, &[0, 255, 9, 0, 1, 0, 0, 200]);
    let region = create_region_from_pixbuf_scaled(&img, 10, 20, 4, 2);
    assert_eq!(region, vec![rect(11, 20, 2, 1), rect(10, 21, 1, 1), rect(13, 21, 1, 1)]);
}

#[test]
fn scaling_up_repeats_source_pixels() {
    // 2x1 image: X .   rendered at 4x2.
    let img = rgba(2, 1, &[255, 0]);
    let region = create_region_from_pixbuf_scaled(&img, 0, 0, 4, 2);
    assert_eq!(region, vec![rect(0, 0, 2, 1), rect(0, 1, 2, 1)]);
}

#[test]
fn scaling_down_samples_source_pixels() {
    // 4x1 image: . X X X  rendered at 2x1 samples columns 0 and 2.
    let img = rgba(4, 1, &[0, 255, 255, 255]);
    let region = create_region_from_pixbuf_scaled(&img, 5, 5, 2, 1);
    assert_eq!(region, vec![rect(6, 5, 1, 1)]);
}

#[test]
fn run_reaching_the_right_edge_is_closed() {
    let img = rgba(3, 1, &[0, 7, 7]);
    let region = create_region_from_pixbuf_scaled(&img, 0, 0, 3, 1);
    assert_eq!(region, vec![rect(1, 0, 2, 1)]);
}

#[test]
fn fully_transparent_image_takes_the_whole_box() {
    let img = rgba(2, 2, &[0, 0, 0, 0]);
    let region = create_region_from_pixbuf_scaled(&img, 3, 4, 8, 6);
    assert_eq!(region, vec![rect(3, 4, 8, 6)]);
}

#[test]
fn image_without_alpha_takes_the_whole_box() {
    let img = PixelData { width: 2, height: 2, has_alpha: false, n_channels: 3, rowstride: 6, bytes: Some(vec![0; 12]) };
    assert_eq!(create_region_from_pixbuf_scaled(&img, 1, 2, 3, 4), vec![rect(1, 2, 3, 4)]);
}

#[test]
fn image_without_bytes_takes_the_whole_box() {
    let img = PixelData { width: 2, height: 2, has_alpha: true, n_channels: 4, rowstride: 8, bytes: None };
    assert_eq!(create_region_from_pixbuf_scaled(&img, 0, 0, 5, 5), vec![rect(0, 0, 5, 5)]);
}

#[test]
fn alpha_past_the_end_of_the_data_is_transparent() {
    // The bytes hold only the first pixel; the second pixel's alpha is missing.
    let img = PixelData { width: 2, height: 1, has_alpha: true, n_channels: 4, rowstride: 8, bytes: Some(vec![1, 2, 3, 255]) };
    assert_eq!(create_region_from_pixbuf_scaled(&img, 0, 0, 2, 1), vec![rect(0, 0, 1, 1)]);
}

#[test]
fn rowstride_padding_is_skipped() {
    // 1x2 image with 8-byte rows: only the second row is opaque.
    let img = PixelData {
        width: 1,
        height: 2,
        has_alpha: true,
        n_channels: 4,
        rowstride: 8,
        bytes: Some(vec![0, 0, 0, 0, 9, 9, 9, 9, 0, 0, 0, 255, 0, 0, 0, 0]),
    };
    assert_eq!(create_region_from_pixbuf_scaled(&img, 0, 0, 1, 2), vec![rect(0, 1, 1, 1)]);
}

#[test]
fn empty_allocation_uses_the_image_extent() {
    let img = rgba(3, 2, &[0, 0, 0, 0, 0, 0]);
    assert_eq!(image_input_region(&img, 7, 7, 0, 10), vec![rect(0, 0, 3, 2)]);
    assert_eq!(image_input_region(&img, 7, 7, 10, -1), vec![rect(0, 0, 3, 2)]);
}

#[test]
fn non_empty_allocation_scans_the_image() {
    let img = rgba(2, 1, &[0, 255]);
    assert_eq!(image_input_region(&img, 2, 3, 2, 1), vec![rect(3, 3, 1, 1)]);
}
