use make::canvas::{column_has_content, computed_height, content_width_for, locate_content, place_on_canvas};
use make::dither::{atkinson_dither, diffuse_pixel, floyd_steinberg_dither, ordered_4x4_dither};
use make::tabby::loom_tabby;
use make::tone::{extract_luminance, luma, normalize_range};
use make::weave::{
    bind_columns, bind_rows, columns_within_limit, enforce_weavability, is_weavable, loom_filter,
    rows_within_limits, RunPolicy, WeaveRules,
};

fn is_binary(img: &[u8]) -> bool {
    img.iter().all(|p| *p == 0 || *p == 255)
}

#[test]
fn height_keeps_the_aspect_ratio() {
    assert_eq!(computed_height(200, 100, 100), Some(50));
    assert_eq!(computed_height(100, 50, 1000), Some(500));
    assert_eq!(computed_height(640, 480, 640), Some(480));
}

#[test]
fn height_rounds_to_nearest_and_half_up() {
    // 3 * 2 / 4 = 1.5 -> 2
    assert_eq!(computed_height(4, 3, 2), Some(2));
    // 1 * 1 / 3 = 0.33 -> 0
    assert_eq!(computed_height(3, 1, 1), Some(0));
    // 2 * 1 / 3 = 0.67 -> 1
    assert_eq!(computed_height(3, 2, 1), Some(1));
    // 7 * 10 / 4 = 17.5 -> 18
    assert_eq!(computed_height(4, 7, 10), Some(18));
}

#[test]
fn height_of_a_picture_without_width_is_none() {
    assert_eq!(computed_height(0, 10, 10), None);
}

#[test]
fn height_beyond_a_raster_is_none() {
    assert_eq!(computed_height(1, u32::MAX, 2), None);
    assert_eq!(computed_height(1, u32::MAX, 1), Some(u32::MAX));
}

#[test]
fn content_is_no_wider_than_the_loom() {
    assert_eq!(content_width_for(500, 1320), 500);
    assert_eq!(content_width_for(2000, 1320), 1320);
    assert_eq!(content_width_for(1320, 1320), 1320);
}

#[test]
fn canvas_is_white_beside_the_picture() {
    let content = vec![1u8, 2, 3, 4, 5, 6];
    let canvas = place_on_canvas(&content, 2, 3, 4);
    assert_eq!(canvas, vec![1, 2, 255, 255, 3, 4, 255, 255, 5, 6, 255, 255]);
}

#[test]
fn canvas_of_full_width_is_the_picture() {
    let content = vec![9u8, 8, 7, 6];
    assert_eq!(place_on_canvas(&content, 2, 2, 2), content);
}

#[test]
fn canvas_without_rows_is_empty() {
    let content: Vec<u8> = Vec::new();
    assert_eq!(place_on_canvas(&content, 3, 0, 5), Vec::<u8>::new());
}

#[test]
fn luma_weighs_the_channels() {
    assert_eq!(luma(255, 255, 255), 255);
    assert_eq!(luma(0, 0, 0), 0);
    assert_eq!(luma(255, 0, 0), 54);
    assert_eq!(luma(0, 255, 0), 182);
    assert_eq!(luma(0, 0, 255), 18);
    assert_eq!(luma(10, 20, 30), 18);
}

#[test]
fn luminance_ignores_alpha() {
    let rgba = vec![255u8, 0, 0, 0, 255, 0, 0, 255, 0, 0, 255, 7];
    assert_eq!(extract_luminance(&rgba), vec![54, 54, 18]);
}

#[test]
fn normalizer_stretches_to_full_range() {
    let mut img = vec![50u8, 100, 150];
    assert!(normalize_range(&mut img));
    assert_eq!(img, vec![0, 128, 255]);
}

#[test]
fn normalizer_rounds_to_nearest() {
    let mut img = vec![0u8, 1, 2, 3];
    assert!(normalize_range(&mut img));
    assert_eq!(img, vec![0, 85, 170, 255]);
    let mut img = vec![10u8, 11, 17];
    assert!(normalize_range(&mut img));
    // (1 * 255) / 7 = 36.43 -> 36
    assert_eq!(img, vec![0, 36, 255]);
}

#[test]
fn normalizer_reports_a_flat_raster() {
    let mut img = vec![77u8; 12];
    assert!(!normalize_range(&mut img));
    assert_eq!(img, vec![77u8; 12]);
    let mut empty: Vec<u8> = Vec::new();
    assert!(!normalize_range(&mut empty));
    let mut one = vec![3u8];
    assert!(!normalize_range(&mut one));
}

fn block_canvas() -> Vec<u8> {
    // a 10 x 10 solid block inside a 100 x 50 white canvas, columns 45..55, rows 20..30
    let mut img = vec![255u8; 100 * 50];
    for y in 20..30 {
        for x in 45..55 {
            img[y * 100 + x] = 0;
        }
    }
    img
}

#[test]
fn locator_finds_the_block_edges() {
    let img = block_canvas();
    assert_eq!(locate_content(&img, 100, 50, 10), (44, 55));
}

#[test]
fn locator_ignores_columns_under_the_threshold() {
    let mut img = block_canvas();
    // nine dark pixels in column 3: noise
    for y in 0..9 {
        img[y * 100 + 3] = 0;
    }
    assert!(!column_has_content(&img, 100, 50, 3, 10));
    assert!(column_has_content(&img, 100, 50, 45, 10));
    assert_eq!(locate_content(&img, 100, 50, 10), (44, 55));
    // an eleventh makes it content
    img[9 * 100 + 3] = 0;
    img[10 * 100 + 3] = 0;
    assert_eq!(locate_content(&img, 100, 50, 10), (2, 55));
}

#[test]
fn locator_defaults_to_the_whole_canvas() {
    let img = vec![255u8; 100 * 50];
    assert_eq!(locate_content(&img, 100, 50, 10), (0, 99));
    let empty: Vec<u8> = Vec::new();
    assert_eq!(locate_content(&empty, 0, 0, 10), (0, 0));
    assert_eq!(locate_content(&empty, 0, 5, 10), (0, 0));
}

#[test]
fn locator_stays_inside_the_canvas() {
    let img = vec![0u8; 20 * 12];
    assert_eq!(locate_content(&img, 20, 12, 10), (0, 19));
}

#[test]
fn diffusion_of_a_three_by_three_raster() {
    let mut img = vec![100u8; 9];
    atkinson_dither(&mut img, 3, 3);
    assert_eq!(img, vec![0, 255, 0, 0, 255, 0, 0, 0, 255]);
    let mut img = vec![200u8, 100, 50, 25, 220, 130, 90, 60, 10];
    atkinson_dither(&mut img, 3, 3);
    assert_eq!(img, vec![255, 0, 0, 0, 0, 255, 0, 0, 0]);
}

#[test]
fn diffusion_hands_out_the_sixteenths() {
    // the centre 100 becomes black and leaves the error 100:
    // 7/16 = 43 to the right, 3/16 = 18 below left, 5/16 = 31 below, 1/16 = 6 below right
    let mut img = vec![10u8, 10, 10, 10, 100, 10, 10, 10, 10];
    diffuse_pixel(&mut img, 3, 3, 1, 1);
    assert_eq!(img, vec![10, 10, 10, 10, 0, 53, 28, 41, 16]);
}

#[test]
fn diffusion_hands_out_a_negative_error_rounded_towards_zero() {
    // the centre 200 becomes white and leaves the error -55:
    // -(385 / 16) = -24, -(165 / 16) = -10, -(275 / 16) = -17, -(55 / 16) = -3
    let mut img = vec![100u8, 100, 100, 100, 200, 100, 100, 100, 100];
    diffuse_pixel(&mut img, 3, 3, 1, 1);
    assert_eq!(img, vec![100, 100, 100, 100, 255, 76, 90, 83, 97]);
}

#[test]
fn diffusion_keeps_the_low_byte() {
    // 250 + 55 = 305 -> 49 ; 5 - 55 = -50 -> 206
    let mut img = vec![127u8, 250];
    diffuse_pixel(&mut img, 2, 1, 0, 0);
    assert_eq!(img, vec![0, 49]);
    let mut img = vec![128u8, 5];
    diffuse_pixel(&mut img, 2, 1, 0, 0);
    assert_eq!(img, vec![255, 206]);
}

#[test]
fn diffusion_skips_neighbours_outside_the_raster() {
    // bottom right corner: no neighbour at all
    let mut img = vec![10u8, 10, 10, 100];
    diffuse_pixel(&mut img, 2, 2, 1, 1);
    assert_eq!(img, vec![10, 10, 10, 0]);
    // right edge: nothing goes to the next row's first pixel as a right neighbour
    let mut img = vec![10u8, 100, 10, 10];
    diffuse_pixel(&mut img, 2, 2, 1, 0);
    assert_eq!(img, vec![10, 0, 28, 41]);
    // left edge: nothing goes to the own row's last pixel as a neighbour below left
    let mut img = vec![100u8, 10, 10, 10];
    diffuse_pixel(&mut img, 2, 2, 0, 0);
    assert_eq!(img, vec![0, 53, 41, 16]);
}

#[test]
fn diffusion_thresholds_what_it_has_spread() {
    let mut row = vec![100u8, 200, 0];
    atkinson_dither(&mut row, 3, 1);
    assert_eq!(row, vec![0, 255, 255]);
    let mut row = vec![200u8, 140, 0];
    atkinson_dither(&mut row, 3, 1);
    assert_eq!(row, vec![255, 0, 0]);
    let mut column = vec![127u8, 100];
    atkinson_dither(&mut column, 1, 2);
    assert_eq!(column, vec![0, 255]);
}

#[test]
fn diffusion_does_not_wrap_around_rows() {
    // width 2: the error of the last pixel of row 0 must not reach the first pixel of row 1
    // through the right neighbour; it reaches it as the below-left neighbour only.
    let mut img = vec![0u8, 127, 120, 0];
    atkinson_dither(&mut img, 2, 2);
    // pixel 1: error 127, below-left (0,1) gets 127 * 3 / 16 = 23 -> 143 -> white
    // below (1,1) gets 39; then pixel 2: 143 -> 255, error -112, right gets -(112*7/16) = -49
    // 39 - 49 = -10 -> low byte 246 -> white
    assert_eq!(img, vec![0, 0, 255, 255]);
}

#[test]
fn the_two_diffusions_agree() {
    let source: Vec<u8> = (0..60).map(|i| ((i * 37) % 256) as u8).collect();
    let mut a = source.clone();
    let mut b = source.clone();
    atkinson_dither(&mut a, 10, 6);
    floyd_steinberg_dither(&mut b, 10, 6);
    assert_eq!(a, b);
    assert!(is_binary(&a));
}

#[test]
fn ordered_dither_compares_with_the_matrix() {
    let mut img = vec![8u8; 16];
    ordered_4x4_dither(&mut img, 4, 4);
    assert_eq!(img, vec![255, 0, 255, 0, 0, 255, 0, 255, 255, 0, 255, 0, 0, 255, 0, 255]);
    let mut img = vec![0u8; 8];
    ordered_4x4_dither(&mut img, 4, 2);
    assert_eq!(img, vec![0u8; 8]);
    let mut img = vec![16u8; 8];
    ordered_4x4_dither(&mut img, 4, 2);
    assert_eq!(img, vec![255u8; 8]);
}

#[test]
fn row_pass_cuts_black_runs() {
    let mut img = vec![0u8; 12];
    bind_rows(&mut img, 12, 1, &RunPolicy::Flat { limit: 5 });
    assert_eq!(img, vec![0, 0, 0, 0, 255, 0, 0, 0, 0, 255, 0, 0]);
}

#[test]
fn row_pass_alternates_by_row_parity() {
    let mut img = vec![0u8; 20];
    bind_rows(&mut img, 10, 2, &RunPolicy::RowParity { even: 5, odd: 4 });
    assert_eq!(
        img,
        vec![0, 0, 0, 0, 255, 0, 0, 0, 0, 255, 0, 0, 0, 255, 0, 0, 0, 255, 0, 0]
    );
}

#[test]
fn column_pass_cuts_white_runs() {
    let mut img = vec![255u8; 12];
    bind_columns(&mut img, 1, 12, 5);
    assert_eq!(img, vec![255, 255, 255, 255, 0, 255, 255, 255, 255, 0, 255, 255]);
    // any non-black pixel counts as white
    let mut img = vec![7u8; 6];
    bind_columns(&mut img, 1, 6, 5);
    assert_eq!(img, vec![7, 7, 7, 7, 0, 7]);
}

#[test]
fn loom_filter_is_one_standard_round() {
    let mut img = vec![0u8; 10 * 2];
    loom_filter(&mut img, 10, 2);
    assert_eq!(
        img,
        vec![0, 0, 0, 0, 255, 0, 0, 0, 0, 255, 0, 0, 0, 255, 0, 0, 0, 255, 0, 0]
    );
    let mut white = vec![255u8; 2 * 6];
    loom_filter(&mut white, 2, 6);
    assert_eq!(white, vec![255, 255, 255, 255, 255, 255, 255, 255, 0, 0, 255, 255]);
}

#[test]
fn all_black_raster_keeps_its_columns_within_the_limit() {
    let rules = WeaveRules::standard();
    let mut img = vec![0u8; 40 * 30];
    enforce_weavability(&mut img, 40, 30, &rules);
    assert!(is_binary(&img));
    assert!(columns_within_limit(&img, 40, 30, rules.column_limit));
}

#[test]
fn all_black_raster_is_within_the_row_limits_after_the_row_pass() {
    let rules = WeaveRules::standard();
    let mut img = vec![0u8; 40 * 30];
    bind_rows(&mut img, 40, 30, &rules.rows);
    assert!(rows_within_limits(&img, 40, 30, &rules.rows));
    // column 19 is white in every row now; the column pass blackens part of it
    // and joins the black runs on its two sides
    bind_columns(&mut img, 40, 30, rules.column_limit);
    assert!(columns_within_limit(&img, 40, 30, rules.column_limit));
    assert!(!rows_within_limits(&img, 40, 30, &rules.rows));
}

#[test]
fn all_white_raster_keeps_its_columns_within_the_limit() {
    let rules = WeaveRules::flat(5, 5, 1);
    let mut img = vec![255u8; 17 * 23];
    enforce_weavability(&mut img, 17, 23, &rules);
    assert!(columns_within_limit(&img, 17, 23, 5));
    assert!(is_binary(&img));
}

#[test]
fn column_pass_can_lengthen_a_black_run() {
    // nine columns, five rows; the middle column is white throughout, row 4 is black beside it
    let mut img = vec![255u8; 9 * 5];
    for x in 0..9 {
        if x != 4 {
            img[4 * 9 + x] = 0;
        }
    }
    // rows 0..4 alternate so that only the middle column has a white run of five
    for y in 0..4 {
        for x in 0..9 {
            if x != 4 && (x + y) % 2 == 0 {
                img[y * 9 + x] = 0;
            }
        }
    }
    let rules = WeaveRules::flat(5, 5, 1);
    assert!(rows_within_limits(&img, 9, 5, &rules.rows));
    enforce_weavability(&mut img, 9, 5, &rules);
    assert!(columns_within_limit(&img, 9, 5, 5));
    assert!(!rows_within_limits(&img, 9, 5, &rules.rows));
    assert!(!is_weavable(&img, 9, 5, &rules));
}

#[test]
fn enforcer_changes_nothing_in_a_compliant_raster() {
    let rules = WeaveRules::standard();
    // a narrow black raster settles in one round
    let mut img = vec![0u8; 3 * 12];
    enforce_weavability(&mut img, 3, 12, &rules);
    assert!(is_weavable(&img, 3, 12, &rules));
    let settled = img.clone();
    enforce_weavability(&mut img, 3, 12, &rules);
    assert_eq!(img, settled);
    loom_filter(&mut img, 3, 12);
    assert_eq!(img, settled);
    // a checkerboard is compliant under any limits of two or more
    let mut board: Vec<u8> = (0..64).map(|i| if (i % 8 + i / 8) % 2 == 0 { 0 } else { 255 }).collect();
    let copy = board.clone();
    assert!(is_weavable(&board, 8, 8, &rules));
    enforce_weavability(&mut board, 8, 8, &rules);
    assert_eq!(board, copy);
}

#[test]
fn limits_of_zero_never_cut() {
    let mut img = vec![0u8, 0, 255, 255];
    bind_rows(&mut img, 2, 2, &RunPolicy::Flat { limit: 0 });
    bind_columns(&mut img, 2, 2, 0);
    assert_eq!(img, vec![0, 0, 255, 255]);
    assert!(!rows_within_limits(&img, 2, 2, &RunPolicy::Flat { limit: 0 }));
}

#[test]
fn tabby_stamps_the_literal_pattern() {
    let mut img = vec![7u8; 30 * 4];
    loom_tabby(&mut img, 30, 4, 10, 20, 5);
    for y in 0..4usize {
        let row = &img[y * 30..(y + 1) * 30];
        let expected: [u8; 5] = if y % 2 == 0 { [0, 255, 0, 255, 0] } else { [255, 0, 255, 0, 255] };
        assert_eq!(&row[5..10], &expected);
        assert_eq!(&row[20..25], &expected);
        assert!(row[..5].iter().all(|p| *p == 7));
        assert!(row[10..20].iter().all(|p| *p == 7));
        assert!(row[25..].iter().all(|p| *p == 7));
    }
}

#[test]
fn tabby_is_moved_inside_the_canvas() {
    let mut img = vec![7u8; 12 * 2];
    loom_tabby(&mut img, 12, 2, 0, 12, 5);
    assert_eq!(&img[..12], &[0, 255, 0, 255, 0, 7, 7, 0, 255, 0, 255, 0]);
    assert_eq!(&img[12..], &[255, 0, 255, 0, 255, 7, 7, 255, 0, 255, 0, 255]);
    let mut img = vec![7u8; 12];
    loom_tabby(&mut img, 12, 1, 40, 2, 3);
    assert_eq!(img, vec![7, 7, 0, 255, 0, 7, 7, 7, 7, 0, 255, 0]);
}

#[test]
fn tabby_wider_than_the_canvas_fills_the_row() {
    let mut img = vec![7u8; 3 * 2];
    loom_tabby(&mut img, 3, 2, 1, 1, 9);
    assert_eq!(img, vec![0, 255, 0, 255, 0, 255]);
    let mut empty: Vec<u8> = Vec::new();
    loom_tabby(&mut empty, 0, 0, 3, 4, 5);
    assert!(empty.is_empty());
}

#[test]
fn tabby_of_width_zero_changes_nothing() {
    let mut img = vec![7u8; 8];
    loom_tabby(&mut img, 4, 2, 1, 2, 0);
    assert_eq!(img, vec![7u8; 8]);
}

#[test]
fn overlapping_strips_put_the_right_one_on_top() {
    let mut img = vec![7u8; 6];
    loom_tabby(&mut img, 6, 1, 4, 2, 4);
    // left strip 0..4: 0,255,0,255; right strip 2..6: 0,255,0,255 on top
    assert_eq!(img, vec![0, 255, 0, 255, 0, 255]);
}
