//! Pictures: cropping, turning and scaling down.

use curvectrl::edit_manifest::CropMargins as Marg;
use curvectrl::raster::{
    bake_geometry, crop_rgba, crop_samples, display_source_dims, resized_dims, rotate_quarters, scale_crop,
    upright, Orientation,
};

#[test]
fn crop_extracts_inner_region() {
    let samples: Vec<f32> = (0_u16..12).map(f32::from).collect();

    let (cropped, width, height) = crop_samples(&samples, 4, 3, [1, 1, 1, 2]).unwrap();

    assert_eq!((width, height), (1, 1));
    assert_eq!(cropped, vec![6.0]);
}

#[test]
fn crop_rejects_degenerate_regions() {
    assert!(crop_samples(&[0.0; 4], 2, 2, [2, 0, 0, 0]).is_none());
    assert!(crop_samples(&[0.0; 4], 2, 2, [0, 1, 0, 2]).is_none());
}

#[test]
fn resized_dims_caps_the_long_edge_preserving_aspect() {
    // A source already under the ceiling keeps its exact dimensions.
    assert_eq!(resized_dims(3000, 2000, 8192), (3000, 2000));
    // A portrait source under the ceiling is untouched too.
    assert_eq!(resized_dims(2000, 3000, 8192), (2000, 3000));
    // A landscape source over the wgpu ceiling is capped on the long edge,
    // the short axis truncating to the same fractional scale as the real
    // downscale (6000·(8192/9000) = 5461.3 → 5461).
    assert_eq!(resized_dims(9000, 6000, 8192), (8192, 5461));
    // Portrait mirrors it: the capped edge lands on the height axis.
    assert_eq!(resized_dims(6000, 9000, 8192), (5461, 8192));
    // Degenerate dims never divide by zero or shrink below a pixel.
    assert_eq!(resized_dims(0, 3, 8192), (1, 3));
    assert_eq!(resized_dims(1, 1, 8192), (1, 1));
}

#[test]
fn scale_crop_scales_margins_onto_the_print() {
    // 4000x2000 source printed at 400x200 scales each axis by 1/10.
    let crop = Marg { top: 10, right: 20, bottom: 30, left: 40 };
    assert_eq!(
        scale_crop(crop, 4000, 2000, 400, 200),
        Marg { top: 1, right: 2, bottom: 3, left: 4 }
    );
}

#[test]
fn scale_crop_scales_a_rotated_print_from_display_source_dims() {
    // A Rotate90 sensor of masked dims (2000 wide, 400 tall) displays as
    // (400 wide, 2000 tall): the caller resolves those display dims before
    // scaling, so the print's horizontal axis (400) maps to the source
    // horizontal and the vertical margins compress by 400→200 / 2000.
    let crop = Marg { top: 10, right: 20, bottom: 30, left: 40 };
    let (disp_w, disp_h) = display_source_dims(2000, 400, Orientation::Rotate90);
    assert_eq!((disp_w, disp_h), (400, 2000));
    assert_eq!(
        scale_crop(crop, disp_w, disp_h, 400, 200),
        Marg { top: 1, right: 20, bottom: 3, left: 40 }
    );
}

#[test]
fn crop_bake_resolves_display_dims_before_scaling_to_the_thumb() {
    // A 6000x4000 landscape sensor prints 384x256; a 100 source-px left+right
    // trim is about 1.67% of the frame and removes about 6.4 print px per side.
    let crop = Marg { top: 0, right: 100, bottom: 0, left: 100 };
    let (disp_w, disp_h) = display_source_dims(6000, 4000, Orientation::Normal);
    let scaled = scale_crop(crop, disp_w, disp_h, 384, 256);
    assert_eq!(
        (scaled.left, scaled.right, scaled.top, scaled.bottom),
        (6, 6, 0, 0)
    );
}

#[test]
fn crop_bake_matches_a_portrait_rotated_frame() {
    // The same 100-px side crop and a 100-px top trim land at the same print
    // fractions as in the landscape case.
    let crop = Marg { top: 100, right: 100, bottom: 0, left: 0 };
    let (disp_w, disp_h) = display_source_dims(6000, 4000, Orientation::Rotate90);
    assert_eq!((disp_w, disp_h), (4000, 6000));
    // Portrait print of a 6000-long sensor: 256x384.
    let scaled = scale_crop(crop, disp_w, disp_h, 256, 384);
    assert_eq!(
        (scaled.left, scaled.right, scaled.top, scaled.bottom),
        (0, 6, 6, 0)
    );
}

#[test]
fn printed_margins_round_to_the_nearest_pixel() {
    let crop = Marg { top: 1, right: 3, bottom: 5, left: 7 };
    assert_eq!(scale_crop(crop, 4, 4, 2, 2), Marg { top: 1, right: 2, bottom: 3, left: 4 });
    // A print as large as the source keeps the margins.
    assert_eq!(scale_crop(crop, 90, 60, 90, 60), crop);
    // A source without sides counts as one pixel, and margins stay numbers.
    assert_eq!(scale_crop(crop, 0, 0, 2, 1), Marg { top: 1, right: 6, bottom: 5, left: 14 });
    let huge = Marg { top: u32::MAX, ..crop };
    assert_eq!(scale_crop(huge, 1, 1, 1, 2).top, u32::MAX);
}

#[test]
fn display_source_dims_swaps_axes_for_rotated_sensors() {
    for o in [
        Orientation::Rotate90,
        Orientation::Rotate270,
        Orientation::Transpose,
        Orientation::Transverse,
    ] {
        assert_eq!(display_source_dims(6000, 4000, o), (4000, 6000));
    }
    for o in [
        Orientation::Normal,
        Orientation::Unknown,
        Orientation::HorizontalFlip,
        Orientation::VerticalFlip,
        Orientation::Rotate180,
    ] {
        assert_eq!(display_source_dims(6000, 4000, o), (6000, 4000));
    }
}

#[test]
fn crop_rgba_slices_the_frame_to_the_margins() {
    // A 4x4 RGBA grid; each pixel gray = row-major pixel index.
    let mut rgba = Vec::new();
    for p in 0..16u8 {
        rgba.extend_from_slice(&[p, p, p, 255]);
    }
    let crop = Marg {
        top: 1,
        right: 1,
        bottom: 1,
        left: 1,
    };
    let (out, w, h) = crop_rgba(rgba, 4, 4, crop);
    assert_eq!((w, h), (2, 2));
    assert_eq!(&out[0..4], &[5, 5, 5, 255], "top-left = source row1 col1");
    assert_eq!(&out[4..8], &[6, 6, 6, 255]);
    assert_eq!(&out[8..12], &[9, 9, 9, 255]);
    assert_eq!(&out[12..16], &[10, 10, 10, 255]);
}

#[test]
fn crop_rgba_is_identity_with_no_margins() {
    let rgba: Vec<u8> = (0..4u8).flat_map(|p| [p, p, p, 255]).collect();
    let (out, w, h) = crop_rgba(rgba.clone(), 2, 2, Marg::default());
    assert_eq!((w, h), (2, 2));
    assert_eq!(out, rgba);
}

#[test]
fn crop_rgba_rejects_an_overrunning_crop_unchanged() {
    let rgba: Vec<u8> = (0..4u8).flat_map(|p| [p, p, p, 255]).collect();
    let crop = Marg {
        top: 0,
        right: 0,
        bottom: 0,
        left: 100,
    };
    let (out, w, h) = crop_rgba(rgba.clone(), 2, 2, crop);
    assert_eq!((w, h), (2, 2));
    assert_eq!(out, rgba);
}

#[test]
fn rotate_quarters_quarter_turns_a_square_grid_ccw() {
    // A 2x2 RGBA grid; each pixel gray = its position (0..3).
    let rgba: Vec<u8> = (0..4u8).flat_map(|p| [p, p, p, 255]).collect();
    // One CCW turn keeps a square's dims but moves the original TOP edge
    // to the display's LEFT column (shader `rot == 1`: (1-v, u) puts the
    // display top-left at texture top-right, and the display left column
    // walks the original top row right→left as it goes down).
    let (out, w, h) = rotate_quarters(rgba.clone(), 2, 2, 1);
    assert_eq!((w, h), (2, 2));
    assert_eq!(&out[0..4], &[1, 1, 1, 255], "top-left = source top-right");
    assert_eq!(
        &out[8..12],
        &[0, 0, 0, 255],
        "bottom-left = source top-left"
    );
    // Two turns: pure 180° reversal, dims unchanged.
    let (out, w, h) = rotate_quarters(rgba.clone(), 2, 2, 2);
    assert_eq!((w, h), (2, 2));
    assert_eq!(&out[0..4], &[3, 3, 3, 255]);
    assert_eq!(&out[12..16], &[0, 0, 0, 255]);
    // Three turns (one CW): the original TOP edge lands on the display's
    // RIGHT column, so the display top-left samples the source BOTTOM-left.
    let (out, w, h) = rotate_quarters(rgba.clone(), 2, 2, 3);
    assert_eq!((w, h), (2, 2));
    assert_eq!(&out[0..4], &[2, 2, 2, 255], "top-left = source bottom-left");
    // Four turns wrap to the identity (mirrors `& 3` in the shader).
    let (out, w, h) = rotate_quarters(rgba.clone(), 2, 2, 4);
    assert_eq!((w, h), (2, 2));
    assert_eq!(out, rgba);
}

#[test]
fn rotate_quarters_swaps_dims_on_an_odd_turn_and_composes_crop() {
    // A 3-wide × 2-tall grid; pixel value = row-major index.
    let mut rgba = Vec::new();
    for p in 0..6u8 {
        rgba.extend_from_slice(&[p, p, p, 255]);
    }
    let (out, w, h) = rotate_quarters(rgba.clone(), 3, 2, 1);
    assert_eq!((w, h), (2, 3), "odd turn swaps the print dims");
    // Output grid (2 wide × 3 tall): source 0 1 2 / 3 4 5 rotates CCW to
    // 2 5 / 1 4 / 0 3. Mapping: source (x,y) → output (ox=y, oy=w−1−x).
    assert_eq!(
        &out[0..4],
        &[2, 2, 2, 255],
        "output top-left = source top-right"
    );
    assert_eq!(
        &out[4..8],
        &[5, 5, 5, 255],
        "output top-right = source bottom-right"
    );
    assert_eq!(
        &out[8..12],
        &[1, 1, 1, 255],
        "output middle-left = source mid top"
    );
    assert_eq!(
        &out[16..20],
        &[0, 0, 0, 255],
        "output bottom-left = source top-left"
    );
    // Compose with a crop: quarter-turn the result of cropping a 3×3 frame
    // to its 1-px margins (a 1×1 center pixel), like the bake's
    // crop-then-rotate ordering.
    let mut rgba = Vec::new();
    for p in 0..9u8 {
        rgba.extend_from_slice(&[p, p, p, 255]);
    }
    let (cropped, cw, ch) = crop_rgba(
        rgba.clone(),
        3,
        3,
        Marg {
            top: 1,
            right: 1,
            bottom: 1,
            left: 1,
        },
    );
    assert_eq!((cw, ch), (1, 1));
    let (out, w, h) = rotate_quarters(cropped, cw, ch, 1);
    assert_eq!((w, h), (1, 1));
    assert_eq!(&out[0..4], &[4, 4, 4, 255], "crop center pixel survives");
}

#[test]
fn turning_twice_turns_by_both_amounts() {
    let rgba: Vec<u16> = (0..6u16).flat_map(|p| [p, p, p, 900]).collect();
    for a in 0..4u8 {
        for b in 0..4u8 {
            let (once, w, h) = rotate_quarters(rgba.clone(), 3, 2, a);
            assert_eq!(
                rotate_quarters(once, w, h, b),
                rotate_quarters(rgba.clone(), 3, 2, a + b)
            );
        }
    }
}

#[test]
fn an_empty_picture_stays_empty() {
    assert_eq!(rotate_quarters(Vec::<u8>::new(), 0, 7, 1), (Vec::new(), 7, 0));
    assert_eq!(crop_rgba(Vec::<u8>::new(), 0, 7, Marg::default()), (Vec::new(), 0, 7));
}

#[test]
fn a_thin_picture_keeps_a_pixel() {
    assert_eq!(resized_dims(100_000, 1, 384), (384, 1));
    assert_eq!(resized_dims(u32::MAX, u32::MAX, 8192), (8192, 8192));
}

#[test]
fn baking_crops_before_it_turns() {
    let rgba: Vec<u8> = (0..6u8).flat_map(|p| [p, p, p, 255]).collect();
    let crop = Marg { right: 1, ..Marg::default() };
    let (out, w, h) = bake_geometry(rgba, 3, 2, crop, 3);
    assert_eq!((w, h), (2, 2));
    let shown: Vec<u8> = out.chunks(4).map(|px| px[0]).collect();
    assert_eq!(shown, vec![3, 0, 4, 1]);
}

#[test]
fn pictures_are_set_upright() {
    // 0 1 2 / 3 4 5
    let samples: Vec<u8> = (0..6).collect();
    let shown = |orientation| upright(&samples, 3, 2, orientation);
    assert_eq!(shown(Orientation::Normal), (vec![0, 1, 2, 3, 4, 5], 3, 2));
    assert_eq!(shown(Orientation::Unknown), (vec![0, 1, 2, 3, 4, 5], 3, 2));
    assert_eq!(shown(Orientation::HorizontalFlip), (vec![2, 1, 0, 5, 4, 3], 3, 2));
    assert_eq!(shown(Orientation::VerticalFlip), (vec![3, 4, 5, 0, 1, 2], 3, 2));
    assert_eq!(shown(Orientation::Rotate180), (vec![5, 4, 3, 2, 1, 0], 3, 2));
    assert_eq!(shown(Orientation::Transpose), (vec![0, 3, 1, 4, 2, 5], 2, 3));
    // Held upside left: the picture is turned a quarter with the clock.
    assert_eq!(shown(Orientation::Rotate90), (vec![3, 0, 4, 1, 5, 2], 2, 3));
    assert_eq!(shown(Orientation::Rotate270), (vec![2, 5, 1, 4, 0, 3], 2, 3));
    assert_eq!(shown(Orientation::Transverse), (vec![5, 2, 4, 1, 3, 0], 2, 3));
}
