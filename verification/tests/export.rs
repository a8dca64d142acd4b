use gpu_copy::export::{align_copy_bytes_per_row, GpuImageExport, COPY_BYTES_PER_ROW_ALIGNMENT};

#[test]
fn alignment_is_256_bytes() {
    assert_eq!(COPY_BYTES_PER_ROW_ALIGNMENT, 256);
}

#[test]
fn rows_are_rounded_up_to_the_alignment() {
    assert_eq!(align_copy_bytes_per_row(0), 0);
    assert_eq!(align_copy_bytes_per_row(1), 256);
    assert_eq!(align_copy_bytes_per_row(255), 256);
    assert_eq!(align_copy_bytes_per_row(256), 256);
    assert_eq!(align_copy_bytes_per_row(257), 512);
    assert_eq!(align_copy_bytes_per_row(600), 768);
    assert_eq!(align_copy_bytes_per_row(768), 768);
    assert_eq!(align_copy_bytes_per_row(2048), 2048);
    assert_eq!(align_copy_bytes_per_row(5120), 5120);
}

#[test]
fn aligned_rows_are_the_smallest_multiple_not_below() {
    for n in 0usize..=3000 {
        let padded = align_copy_bytes_per_row(n);
        assert_eq!(padded % 256, 0);
        assert!(padded >= n);
        assert!(padded - n < 256);
    }
}

#[test]
fn alignment_at_the_limit() {
    let top = usize::MAX - 255;
    assert_eq!(align_copy_bytes_per_row(top), top);
    assert_eq!(align_copy_bytes_per_row(top - 1), top);
}

#[test]
fn strides_of_an_rgba_texture_150_pixels_wide() {
    let export = GpuImageExport::prepare((150, 4), (1, 1), 4).unwrap();
    assert_eq!(export.source_size, (150, 4));
    assert_eq!(export.bytes_per_row, 600);
    assert_eq!(export.padded_bytes_per_row, 768);
    assert_eq!(export.buffer_size(), 3072);
    assert_eq!(export.unpadded_size(), 2400);
    assert_eq!(export.get_bps(), (600, 768, (150, 4)));
}

#[test]
fn strides_of_an_aligned_texture_are_equal() {
    let export = GpuImageExport::prepare((512, 128), (1, 1), 4).unwrap();
    assert_eq!(export.bytes_per_row, 2048);
    assert_eq!(export.padded_bytes_per_row, 2048);
    assert_eq!(export.buffer_size(), 2048 * 128);
    assert_eq!(export.unpadded_size(), 2048 * 128);
}

#[test]
fn strides_of_a_block_format() {
    let export = GpuImageExport::prepare((10, 8), (4, 4), 8).unwrap();
    assert_eq!(export.bytes_per_row, 16);
    assert_eq!(export.padded_bytes_per_row, 256);
    assert_eq!(export.buffer_size(), 2048);
}

#[test]
fn strides_of_an_empty_texture() {
    let export = GpuImageExport::prepare((0, 0), (1, 1), 4).unwrap();
    assert_eq!(export.bytes_per_row, 0);
    assert_eq!(export.padded_bytes_per_row, 0);
    assert_eq!(export.buffer_size(), 0);
}

#[test]
fn no_strides_without_a_block_width() {
    assert!(GpuImageExport::prepare((150, 4), (0, 1), 4).is_none());
}

#[test]
fn no_strides_beyond_u32() {
    assert!(GpuImageExport::prepare((u32::MAX, 1), (1, 1), 4).is_none());
    assert!(GpuImageExport::prepare((u32::MAX, 1), (1, 1), 1).is_none());
    assert!(GpuImageExport::prepare((0x4000_0000, 1), (1, 1), 4).is_none());
    let widest = GpuImageExport::prepare((0x3fff_ffc0, 1), (1, 1), 4).unwrap();
    assert_eq!(widest.bytes_per_row, 0xffff_ff00);
    assert_eq!(widest.padded_bytes_per_row, 0xffff_ff00);
    assert!(GpuImageExport::prepare((0x3fff_ffc1, 1), (1, 1), 4).is_none());
}

#[test]
fn the_buffer_of_a_large_texture_is_counted_in_64_bits() {
    let export = GpuImageExport::prepare((0x3fff_ffc0, u32::MAX), (1, 1), 4).unwrap();
    assert_eq!(export.buffer_size(), 0xffff_ff00u64 * 0xffff_ffffu64);
}
