use gpu_readback::{compute_work_group_count, dispatch_count, is_valid_alignment, padded_stride, RowLayout};

#[test]
fn padded_stride_pads_short_row_to_alignment() {
    assert_eq!(padded_stride(16, 256), 256);
}

#[test]
fn padded_stride_keeps_exact_multiple() {
    assert_eq!(padded_stride(256, 256), 256);
    assert_eq!(padded_stride(512, 256), 512);
}

#[test]
fn padded_stride_of_zero_is_zero() {
    assert_eq!(padded_stride(0, 256), 0);
}

#[test]
fn padded_stride_rounds_one_past_multiple() {
    assert_eq!(padded_stride(257, 256), 512);
    assert_eq!(padded_stride(400, 256), 512);
}

#[test]
fn padded_stride_properties_on_range() {
    for a in [1u32, 2, 4, 64, 256] {
        for u in 0u32..1100 {
            let p = padded_stride(u, a);
            assert_eq!(p % a, 0);
            assert!(p >= u);
            assert!((p as i64) - (a as i64) < u as i64);
        }
    }
}

#[test]
fn alignment_must_be_power_of_two() {
    assert!(is_valid_alignment(1));
    assert!(is_valid_alignment(256));
    assert!(is_valid_alignment(1 << 31));
    assert!(!is_valid_alignment(0));
    assert!(!is_valid_alignment(3));
    assert!(!is_valid_alignment(384));
}

#[test]
fn row_layout_for_four_pixels() {
    let l = RowLayout::for_width(4, 256).unwrap();
    assert_eq!(l.unpadded, 16);
    assert_eq!(l.padded, 256);
    assert_eq!(l.padded - l.unpadded, 240);
}

#[test]
fn row_layout_for_wide_row() {
    let l = RowLayout::for_width(100, 256).unwrap();
    assert_eq!(l.unpadded, 400);
    assert_eq!(l.padded, 512);
}

#[test]
fn row_layout_too_wide_is_none() {
    assert_eq!(RowLayout::for_width(u32::MAX / 4 + 1, 256), None);
    assert_eq!(RowLayout::for_width(u32::MAX / 4, 256), None);
    assert!(RowLayout::for_width((u32::MAX - 255) / 4, 256).is_some());
}

#[test]
fn dispatch_count_width_100_tile_8() {
    let c = dispatch_count(100, 8);
    assert_eq!(c, 13);
    assert!(c * 8 >= 100);
    assert!((c - 1) * 8 < 100);
}

#[test]
fn dispatch_count_width_100_tile_32() {
    assert_eq!(dispatch_count(100, 32), 4);
}

#[test]
fn dispatch_count_exact_and_edges() {
    assert_eq!(dispatch_count(64, 8), 8);
    assert_eq!(dispatch_count(0, 8), 0);
    assert_eq!(dispatch_count(1, 16), 1);
    assert_eq!(dispatch_count(u32::MAX, 1), u32::MAX);
    assert_eq!(dispatch_count(u32::MAX, 2), u32::MAX / 2 + 1);
}

#[test]
fn dispatch_count_properties_on_range() {
    for t in 1u32..40 {
        for d in 1u32..300 {
            let c = dispatch_count(d, t);
            assert!(c * t >= d);
            assert!((c - 1) * t < d);
        }
    }
}

#[test]
fn work_group_count_both_axes() {
    assert_eq!(compute_work_group_count((100, 50), (32, 16)), (4, 4));
    assert_eq!(compute_work_group_count((1920, 1080), (16, 16)), (120, 68));
}
