use jpeg_diff_rs::{
    DiffError, LaneWidth, LumaWeights, Raster, Reduction, Score, TripleSequencer, batch_diff,
    calculate_diff, diff_buffers, divide_to_original, get_luminance_value, run, run_parallel,
};

const WIDTHS: [LaneWidth; 3] = [LaneWidth::Scalar, LaneWidth::Quad, LaneWidth::Wide];

fn solid(width: u32, height: u32, rgb: [u8; 3]) -> Raster {
    let mut data = Vec::new();
    for _ in 0..(width * height) {
        data.extend_from_slice(&rgb);
    }
    Raster::new(width, height, data).unwrap()
}

fn gray_row(values: &[u8]) -> Raster {
    let mut data = Vec::new();
    for v in values {
        data.extend_from_slice(&[*v, *v, *v]);
    }
    Raster::new(values.len() as u32, 1, data).unwrap()
}

fn pattern(len: usize, seed: u32) -> Vec<u8> {
    let mut x = seed;
    let mut out = Vec::new();
    for _ in 0..len {
        x = x.wrapping_mul(1103515245).wrapping_add(12345);
        out.push((x >> 16) as u8);
    }
    out
}

fn normalized(s: Score) -> f64 {
    s.total as f64 / s.pixels as f64
}

#[test]
fn identical_single_pixel_is_zero() {
    let a = solid(1, 1, [10, 10, 10]);
    let b = solid(1, 1, [10, 10, 10]);
    let w = LumaWeights::decimal();
    for lanes in WIDTHS {
        assert_eq!(calculate_diff(&a, &b, lanes, &w), Ok(0));
        let s = run(&a, &vec![b.clone()], lanes, &w).unwrap();
        assert_eq!(normalized(s), 0.0);
    }
}

#[test]
fn white_against_black_is_full_scale() {
    let w = LumaWeights::decimal();
    assert_eq!((w.red, w.green, w.blue), (2126, 7152, 722));
    let white = solid(1, 1, [255, 255, 255]);
    let black = solid(1, 1, [0, 0, 0]);
    assert_eq!(get_luminance_value(&white.data, 0, &w), 2_550_000);
    assert_eq!(get_luminance_value(&black.data, 0, &w), 0);
    for lanes in WIDTHS {
        let s = run(&white, &vec![black.clone()], lanes, &w).unwrap();
        assert_eq!(s, Score { total: 255, pixels: 1 });
        assert_eq!(normalized(s), 255.0);
    }
}

#[test]
fn white_against_black_with_shift_reduction() {
    let w = LumaWeights::binary();
    assert_eq!((w.red, w.green, w.blue), (1741, 5858, 591));
    assert_eq!(w.reduction, Reduction::Shift(13));
    let white = solid(1, 1, [255, 255, 255]);
    let black = solid(1, 1, [0, 0, 0]);
    // 255 * 8190 = 2088450, shifted right by 13 bits
    assert_eq!(calculate_diff(&white, &black, LaneWidth::Scalar, &w), Ok(254));
}

#[test]
fn mismatched_dimensions_are_refused() {
    let w = LumaWeights::decimal();
    let a = solid(4, 4, [1, 2, 3]);
    let b = solid(5, 4, [1, 2, 3]);
    let c = solid(4, 5, [1, 2, 3]);
    for lanes in WIDTHS {
        assert_eq!(calculate_diff(&a, &b, lanes, &w), Err(DiffError::DimensionMismatch));
        assert_eq!(calculate_diff(&a, &c, lanes, &w), Err(DiffError::DimensionMismatch));
        assert_eq!(run(&a, &vec![a.clone(), b.clone()], lanes, &w), Err(DiffError::DimensionMismatch));
        assert_eq!(
            run_parallel(&a, &vec![b.clone(), a.clone()], lanes, &w),
            Err(DiffError::DimensionMismatch)
        );
    }
}

#[test]
fn run_returns_the_largest_normalized_diff() {
    let w = LumaWeights::decimal();
    let reference = gray_row(&[0, 0, 0, 0, 0]);
    let comps = vec![
        gray_row(&[6, 0, 0, 0, 0]),
        gray_row(&[0, 39, 0, 0, 0]),
        gray_row(&[0, 0, 0, 17, 0]),
    ];
    for lanes in WIDTHS {
        let s = run(&reference, &comps, lanes, &w).unwrap();
        assert_eq!(s, Score { total: 39, pixels: 5 });
        assert!((normalized(s) - 7.8).abs() < 1e-9);
        assert_eq!(run_parallel(&reference, &comps, lanes, &w), Ok(s));
    }
    for c in &comps {
        let d = calculate_diff(&reference, c, LaneWidth::Scalar, &w).unwrap();
        assert!([6, 39, 17].contains(&d));
    }
}

#[test]
fn run_without_comparisons_fails() {
    let w = LumaWeights::decimal();
    let reference = solid(2, 2, [9, 9, 9]);
    assert_eq!(run(&reference, &Vec::new(), LaneWidth::Scalar, &w), Err(DiffError::NoInput));
    assert_eq!(run_parallel(&reference, &Vec::new(), LaneWidth::Wide, &w), Err(DiffError::NoInput));
}

#[test]
fn partial_batches_match_scalar() {
    let w = LumaWeights::decimal();
    // 47 bytes: fifteen whole triples and a partial one, not a whole number of wide batches
    let a = pattern(47, 1);
    let b = pattern(47, 2);
    let scalar = diff_buffers(&a, &b, LaneWidth::Scalar, &w);
    assert!(scalar > 0);
    assert_eq!(diff_buffers(&a, &b, LaneWidth::Quad, &w), scalar);
    assert_eq!(diff_buffers(&a, &b, LaneWidth::Wide, &w), scalar);
    // eight pixels: one full batch of five and three triples in a padded one
    let r1 = Raster::new(4, 2, pattern(24, 3)).unwrap();
    let r2 = Raster::new(4, 2, pattern(24, 4)).unwrap();
    let expected = calculate_diff(&r1, &r2, LaneWidth::Scalar, &w).unwrap();
    let mut by_hand = 0u128;
    for t in 0..8 {
        let l1 = get_luminance_value(&r1.data, t, &w);
        let l2 = get_luminance_value(&r2.data, t, &w);
        by_hand += (l1.abs_diff(l2) / 10000) as u128;
    }
    assert_eq!(expected, by_hand);
    assert_eq!(calculate_diff(&r1, &r2, LaneWidth::Quad, &w), Ok(expected));
    assert_eq!(calculate_diff(&r1, &r2, LaneWidth::Wide, &w), Ok(expected));
}

#[test]
fn identity_and_symmetry() {
    let w = LumaWeights::binary();
    let r1 = Raster::new(3, 3, pattern(27, 5)).unwrap();
    let r2 = Raster::new(3, 3, pattern(27, 6)).unwrap();
    for lanes in WIDTHS {
        assert_eq!(calculate_diff(&r1, &r1.clone(), lanes, &w), Ok(0));
        assert_eq!(calculate_diff(&r1, &r2, lanes, &w), calculate_diff(&r2, &r1, lanes, &w));
    }
}

#[test]
fn raster_requires_three_bytes_per_pixel() {
    assert!(Raster::new(2, 2, vec![0; 12]).is_some());
    assert!(Raster::new(2, 2, vec![0; 11]).is_none());
    assert!(Raster::new(0, 7, Vec::new()).is_some());
    assert_eq!(Raster::new(3, 5, vec![0; 45]).unwrap().pixel_count(), 15);
}

#[test]
fn empty_rasters_have_no_difference() {
    let w = LumaWeights::decimal();
    let a = Raster::new(0, 0, Vec::new()).unwrap();
    for lanes in WIDTHS {
        assert_eq!(calculate_diff(&a, &a, lanes, &w), Ok(0));
    }
}

#[test]
fn sequencer_pads_the_last_batch() {
    let data: Vec<u8> = (1..=7).collect();
    let mut s = TripleSequencer::new(&data, LaneWidth::Quad);
    assert_eq!(s.next_batch(), Some(vec![1, 2, 3, 4]));
    assert_eq!(s.next_batch(), Some(vec![4, 5, 6, 7]));
    assert_eq!(s.next_batch(), Some(vec![7, 0, 0, 0]));
    assert_eq!(s.next_batch(), None);
    assert_eq!(s.next_batch(), None);

    let mut s = TripleSequencer::new(&data, LaneWidth::Wide);
    let mut expected = data.clone();
    expected.resize(16, 0);
    assert_eq!(s.next_batch(), Some(expected));
    assert_eq!(s.next_batch(), None);

    let mut s = TripleSequencer::new(&data, LaneWidth::Scalar);
    assert_eq!(s.next_batch(), Some(vec![1, 2, 3]));
    assert_eq!(s.next_batch(), Some(vec![4, 5, 6]));
    assert_eq!(s.next_batch(), Some(vec![7, 0, 0]));
    assert_eq!(s.next_batch(), None);
}

#[test]
fn wide_batch_groups_lanes_by_triple() {
    let w = LumaWeights::decimal();
    let mut x = vec![0u8; 16];
    let mut y = vec![0u8; 16];
    // triple 0 brighter in x, triple 1 brighter in y: the two must not cancel
    x[0] = 100;
    y[4] = 100;
    // padding lane is ignored
    x[15] = 255;
    let d = batch_diff(&x, &y, LaneWidth::Wide, &w);
    assert_eq!(d, (100 * 2126 / 10000) + (100 * 7152 / 10000));
    assert_eq!(d, 21 + 71);
}

#[test]
fn reductions_scale_down() {
    assert_eq!(divide_to_original(2_550_000, Reduction::Divide(10000)), 255);
    assert_eq!(divide_to_original(9_999, Reduction::Divide(10000)), 0);
    assert_eq!(divide_to_original(8192 * 3 + 5, Reduction::Shift(13)), 3);
    assert_eq!(divide_to_original(7, Reduction::Shift(0)), 7);
}

#[test]
fn weights_follow_the_scale() {
    let w = LumaWeights::rec709(1000, Reduction::Divide(1000));
    assert_eq!((w.red, w.green, w.blue), (212, 715, 72));
    let w = LumaWeights::rec709(0, Reduction::Shift(1));
    assert_eq!((w.red, w.green, w.blue), (0, 0, 0));
}
