use gpu_readback::{
    pad_rows, plan_transform, unpack_rows, Extent, PipelineError, Rotation, Transform,
};

#[test]
fn unpack_discards_row_padding() {
    let height = 3usize;
    let mut padded = vec![0xEEu8; 256 * height];
    for row in 0..height {
        for k in 0..16 {
            padded[row * 256 + k] = (row * 16 + k) as u8;
        }
    }
    let packed = unpack_rows(&padded, 16, 256, height).unwrap();
    assert_eq!(packed.len(), 16 * height);
    let expected: Vec<u8> = (0..48u8).collect();
    assert_eq!(packed, expected);
    assert_eq!(padded.len() - packed.len(), 240 * height);
}

#[test]
fn unpack_truncated_buffer_fails() {
    let padded = vec![1u8; 256 * 3 - 1];
    assert_eq!(unpack_rows(&padded, 16, 256, 3), Err(PipelineError::TruncatedReadback));
}

#[test]
fn unpack_truncated_last_row_fails_even_if_pixels_present() {
    let padded = vec![1u8; 256 * 2 + 16];
    assert_eq!(unpack_rows(&padded, 16, 256, 3), Err(PipelineError::TruncatedReadback));
}

#[test]
fn unpack_overflowing_size_fails() {
    let padded = vec![1u8; 8];
    assert_eq!(unpack_rows(&padded, 4, usize::MAX, 2), Err(PipelineError::TruncatedReadback));
}

#[test]
fn unpack_longer_buffer_reads_only_rows() {
    let padded: Vec<u8> = (0..20u8).collect();
    assert_eq!(unpack_rows(&padded, 2, 4, 3), Ok(vec![0, 1, 4, 5, 8, 9]));
}

#[test]
fn unpack_zero_height_is_empty() {
    assert_eq!(unpack_rows(&[], 16, 256, 0), Ok(vec![]));
}

#[test]
fn unpack_without_padding_is_identity() {
    let data: Vec<u8> = (0..60u8).collect();
    assert_eq!(unpack_rows(&data, 12, 12, 5), Ok(data.clone()));
}

#[test]
fn pad_then_unpack_round_trip() {
    let data: Vec<u8> = (100..130u8).collect();
    let padded = pad_rows(&data, 10, 16, 3);
    assert_eq!(padded.len(), 48);
    assert_eq!(&padded[10..16], &[0u8; 6]);
    assert_eq!(&padded[16..26], &data[10..20]);
    assert_eq!(unpack_rows(&padded, 10, 16, 3), Ok(data));
}

#[test]
fn pad_without_padding_is_identity() {
    let data: Vec<u8> = (0..24u8).collect();
    assert_eq!(pad_rows(&data, 8, 8, 3), data);
}

#[test]
fn plan_rotation_by_quarter_turn_swaps_axes() {
    let input = Extent { width: 100, height: 40 };
    let p = plan_transform(Transform::Rotate(Rotation::Deg90), input, 256).unwrap();
    assert_eq!(p.output, Extent { width: 40, height: 100 });
    assert_eq!(p.workgroups, Extent { width: 3, height: 7 });
    assert_eq!(p.layout.unpadded, 160);
    assert_eq!(p.layout.padded, 256);
    assert_eq!(p.staging_size, 256 * 100);
}

#[test]
fn plan_rotation_by_three_quarters_swaps_axes() {
    let input = Extent { width: 33, height: 17 };
    let p = plan_transform(Transform::Rotate(Rotation::Deg270), input, 256).unwrap();
    assert_eq!(p.output, Extent { width: 17, height: 33 });
    assert_eq!(p.workgroups, Extent { width: 2, height: 3 });
}

#[test]
fn plan_half_turn_keeps_axes() {
    let input = Extent { width: 100, height: 40 };
    let p = plan_transform(Transform::Rotate(Rotation::Deg180), input, 256).unwrap();
    assert_eq!(p.output, input);
    assert_eq!(p.workgroups, Extent { width: 7, height: 3 });
    assert_eq!(p.layout.padded, 512);
}

#[test]
fn plan_filter_uses_small_tiles() {
    let input = Extent { width: 100, height: 100 };
    let p = plan_transform(Transform::Grayscale, input, 256).unwrap();
    assert_eq!(p.workgroups, Extent { width: 13, height: 13 });
    assert_eq!(p.layout.unpadded, 400);
    assert_eq!(p.layout.padded, 512);
    assert_eq!(p.staging_size, 51200);
}

#[test]
fn plan_zero_domain_is_unsupported() {
    let t = Transform::Binarize;
    assert_eq!(
        plan_transform(t, Extent { width: 0, height: 10 }, 256),
        Err(PipelineError::UnsupportedDomain)
    );
    assert_eq!(
        plan_transform(t, Extent { width: 10, height: 0 }, 256),
        Err(PipelineError::UnsupportedDomain)
    );
}

#[test]
fn plan_too_wide_row_cannot_be_created() {
    let input = Extent { width: u32::MAX / 4 + 1, height: 1 };
    assert_eq!(
        plan_transform(Transform::YuvToRgb, input, 256),
        Err(PipelineError::ResourceCreationFailed)
    );
}

#[test]
fn plan_read_back_strips_padding() {
    let input = Extent { width: 4, height: 2 };
    let p = plan_transform(Transform::Grayscale, input, 256).unwrap();
    let mut staging = vec![9u8; 512];
    for k in 0..16 {
        staging[k] = k as u8;
        staging[256 + k] = 100 + k as u8;
    }
    let pixels = p.read_back(&staging).unwrap();
    assert_eq!(pixels.len(), 32);
    assert_eq!(&pixels[..16], &staging[..16]);
    assert_eq!(&pixels[16..], &staging[256..272]);
}

#[test]
fn plan_read_back_truncated() {
    let input = Extent { width: 4, height: 2 };
    let p = plan_transform(Transform::Grayscale, input, 256).unwrap();
    assert_eq!(p.read_back(&vec![0u8; 511]), Err(PipelineError::TruncatedReadback));
}
