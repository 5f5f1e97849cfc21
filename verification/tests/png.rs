use cliip_show::error::AppError;
use cliip_show::png::{
    diff_bitmaps, fixture_rgba, validate_fixture_size, DiffSummary, RgbaBitmap,
    FIXTURE_COLOR_A, FIXTURE_COLOR_B, PIXEL_CHANNEL_TOLERANCE,
};

const BASE_COLOR: [u8; 4] = [100, 100, 100, 255];

/// A bitmap with rows padded to `bytes_per_row`, each pixel from `pixel`.
fn bitmap(
    width: usize,
    height: usize,
    bytes_per_row: usize,
    pixel: impl Fn(usize, usize) -> [u8; 4],
) -> RgbaBitmap {
    let mut data = vec![7u8; bytes_per_row * height];
    for y in 0..height {
        for x in 0..width {
            let offset = y * bytes_per_row + x * 4;
            data[offset..offset + 4].copy_from_slice(&pixel(x, y));
        }
    }
    RgbaBitmap {
        width,
        height,
        bytes_per_row: bytes_per_row as isize,
        data,
    }
}

#[test]
fn identical_images_have_zero_diff_pixels() {
    let baseline = bitmap(8, 6, 32, |_, _| BASE_COLOR);
    let current = bitmap(8, 6, 32, |_, _| BASE_COLOR);
    let (summary, _) = diff_bitmaps(&baseline, &current).expect("diff");
    assert_eq!(summary.diff_pixels, 0);
    assert_eq!(summary.total_pixels, 8 * 6);
}

#[test]
fn a_single_changed_pixel_is_counted_once() {
    let baseline = bitmap(8, 6, 40, |_, _| BASE_COLOR);
    let current = bitmap(8, 6, 40, |x, y| {
        if x == 3 && y == 2 {
            [200, 0, 0, 255]
        } else {
            BASE_COLOR
        }
    });
    let (summary, diff) = diff_bitmaps(&baseline, &current).expect("diff");
    assert_eq!(summary.diff_pixels, 1);

    // Only the changed pixel is marked red; the others are gray.
    let marked = &diff[2 * 40 + 3 * 4..2 * 40 + 3 * 4 + 4];
    assert_eq!(marked, &[128, 0, 0, 230]);
    let unmarked = &diff[0..4];
    assert_eq!(unmarked, &[8, 8, 8, 20]);
    // The row padding is that of the current image.
    assert_eq!(&diff[32..40], &[7u8; 8]);
}

/// A difference of exactly the tolerance is no difference; one more is.
#[test]
fn channel_tolerance_boundary_splits_same_and_diff() {
    let delta_within = BASE_COLOR[0] + PIXEL_CHANNEL_TOLERANCE;
    let delta_beyond = BASE_COLOR[0] + PIXEL_CHANNEL_TOLERANCE + 1;
    let baseline = bitmap(8, 6, 32, |_, _| BASE_COLOR);
    let within = bitmap(8, 6, 32, |_, _| [delta_within, 100, 100, 255]);
    let beyond = bitmap(8, 6, 32, |_, _| [delta_beyond, 100, 100, 255]);

    let (summary, _) = diff_bitmaps(&baseline, &within).expect("diff");
    assert_eq!(summary.diff_pixels, 0);

    let (summary, _) = diff_bitmaps(&baseline, &beyond).expect("diff");
    assert_eq!(summary.diff_pixels, 8 * 6);
}

#[test]
fn size_mismatch_is_an_error() {
    let baseline = bitmap(8, 6, 32, |_, _| BASE_COLOR);
    let current = bitmap(8, 7, 32, |_, _| BASE_COLOR);
    let error = diff_bitmaps(&baseline, &current).expect_err("must fail on size mismatch");
    assert!(error.message().contains("size mismatch"), "{error:?}");
    assert_eq!(
        error.message(),
        "image size mismatch: baseline=8x6, current=8x7"
    );
}

#[test]
fn a_row_length_that_is_not_positive_is_an_error() {
    let mut baseline = bitmap(8, 6, 32, |_, _| BASE_COLOR);
    let current = bitmap(8, 6, 32, |_, _| BASE_COLOR);
    baseline.bytes_per_row = 0;
    baseline.data = Vec::new();
    assert_eq!(
        diff_bitmaps(&baseline, &current),
        Err(AppError::RenderFailed(
            "bitmap bytesPerRow must be positive".to_string()
        ))
    );
}

#[test]
fn rows_too_short_for_their_pixels_are_an_error() {
    let baseline = RgbaBitmap {
        width: 8,
        height: 2,
        bytes_per_row: 30,
        data: vec![0; 60],
    };
    let current = bitmap(8, 2, 32, |_, _| BASE_COLOR);
    assert_eq!(
        diff_bitmaps(&baseline, &current),
        Err(AppError::RenderFailed(
            "bitmap data layout mismatch: bytes_per_row too small".to_string()
        ))
    );
}

#[test]
fn diff_summary_compares_by_value() {
    assert_eq!(
        DiffSummary {
            diff_pixels: 1,
            total_pixels: 2
        },
        DiffSummary {
            diff_pixels: 1,
            total_pixels: 2
        }
    );
}

#[test]
fn the_fixture_is_a_checkerboard_of_four_blocks_along_the_short_side() {
    let pixels = fixture_rgba(8, 4).expect("fixture");
    assert_eq!(pixels.len(), 8 * 4 * 4);
    let at = |x: usize, y: usize| -> [u8; 4] {
        let o = (y * 8 + x) * 4;
        [pixels[o], pixels[o + 1], pixels[o + 2], pixels[o + 3]]
    };
    assert_eq!(at(0, 0), FIXTURE_COLOR_A);
    assert_eq!(at(1, 0), FIXTURE_COLOR_B);
    assert_eq!(at(0, 1), FIXTURE_COLOR_B);
    assert_eq!(at(1, 1), FIXTURE_COLOR_A);
}

#[test]
fn an_empty_fixture_is_an_error() {
    assert_eq!(
        fixture_rgba(0, 4),
        Err(AppError::RenderFailed(
            "fixture image size must be positive".to_string()
        ))
    );
    assert!(validate_fixture_size(0, 1).is_err());
    assert!(validate_fixture_size(1, 1).is_ok());
}

#[test]
fn comparison_problem_reports_sizes_before_layout() {
    let a = RgbaBitmap { width: 2, height: 1, bytes_per_row: 0, data: Vec::new() };
    let b = RgbaBitmap { width: 3, height: 1, bytes_per_row: 0, data: Vec::new() };
    assert_eq!(
        cliip_show::png::comparison_problem(&a, &b),
        Some("image size mismatch: baseline=2x1, current=3x1".to_string())
    );
    assert_eq!(
        cliip_show::png::comparison_problem(&a, &a),
        Some("bitmap bytesPerRow must be positive".to_string())
    );
    let c = RgbaBitmap { width: 2, height: 1, bytes_per_row: 7, data: Vec::new() };
    assert_eq!(
        cliip_show::png::comparison_problem(&c, &c),
        Some("bitmap data layout mismatch: bytes_per_row too small".to_string())
    );
    let d = RgbaBitmap { width: 2, height: 1, bytes_per_row: 8, data: Vec::new() };
    assert_eq!(cliip_show::png::comparison_problem(&d, &d), None);
}
