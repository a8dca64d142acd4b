use gpu_copy::pixels::PixelBuffer;
use gpu_copy::sequence::{CurrImage, ImageSequence, DEFAULT_EXTENSION};

#[test]
fn the_default_extension_is_png() {
    assert_eq!(DEFAULT_EXTENSION, "png");
}

#[test]
fn a_path_has_six_digits() {
    let mut image = CurrImage::default();
    image.update_data(7, &PixelBuffer::new(1, 1), "png".to_string());
    assert_eq!(image.create_path("out"), "out/000007.png");
    image.update_data(0, &PixelBuffer::new(1, 1), "png".to_string());
    assert_eq!(image.create_path("out"), "out/000000.png");
    image.update_data(123456, &PixelBuffer::new(1, 1), "webp".to_string());
    assert_eq!(image.create_path("/tmp/frames"), "/tmp/frames/123456.webp");
}

#[test]
fn a_path_of_a_large_frame_id_has_all_its_digits() {
    let mut image = CurrImage::default();
    image.update_data(1234567, &PixelBuffer::new(1, 1), "jpeg".to_string());
    assert_eq!(image.create_path("out"), "out/1234567.jpeg");
    image.update_data(u64::MAX, &PixelBuffer::new(1, 1), "exr".to_string());
    assert_eq!(image.create_path(""), "/18446744073709551615.exr");
}

#[test]
fn a_default_image_is_empty() {
    let image = CurrImage::default();
    assert_eq!(image.frame_id, 0);
    assert_eq!(image.extension, "");
    assert_eq!(image.dimensions(), [0, 0]);
    assert!(image.img_buffer.as_raw().is_empty());
    assert_eq!(image.create_path("out"), "out/000000.");
}

#[test]
fn update_data_takes_a_copy_of_the_image() {
    let mut source = PixelBuffer::new(2, 1);
    source.copy_from_slice(&vec![1, 2, 3, 4, 5, 6, 7, 8]);
    let mut image = CurrImage::default();
    image.update_data(3, &source, "png".to_string());
    source.copy_from_slice(&vec![0u8; 8]);
    assert_eq!(image.frame_id, 3);
    assert_eq!(image.extension, "png");
    assert_eq!(image.dimensions(), [2, 1]);
    assert_eq!(image.img_buffer.as_raw(), &vec![1, 2, 3, 4, 5, 6, 7, 8]);
}

#[test]
fn the_aspect_ratio_is_16_to_9() {
    let mut image = CurrImage::default();
    assert_eq!(image.aspect_ratio(), [16, 9]);
    image.update_data(1, &PixelBuffer::new(4, 4), "png".to_string());
    assert_eq!(image.aspect_ratio(), [16, 9]);
}

#[test]
fn a_sequence_writes_each_frame_once() {
    let mut sequence = ImageSequence::new("out".to_string(), DEFAULT_EXTENSION.to_string());
    assert_eq!(sequence.next_path(0), Some("out/000000.png".to_string()));
    assert_eq!(sequence.next_path(0), None);
    assert_eq!(sequence.next_path(1), Some("out/000001.png".to_string()));
    assert_eq!(sequence.next_path(1), None);
    assert_eq!(sequence.next_path(1), None);
    assert_eq!(sequence.next_path(25), Some("out/000025.png".to_string()));
}

#[test]
fn a_sequence_writes_a_frame_id_that_comes_back() {
    let mut sequence = ImageSequence::new("frames".to_string(), "webp".to_string());
    assert_eq!(sequence.next_path(5), Some("frames/000005.webp".to_string()));
    assert_eq!(sequence.next_path(4), Some("frames/000004.webp".to_string()));
    assert_eq!(sequence.next_path(5), Some("frames/000005.webp".to_string()));
    assert_eq!(sequence.next_path(5), None);
}
