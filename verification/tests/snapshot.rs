use gpu_copy::snapshot::ImageWrapper;

#[test]
fn a_new_snapshot_is_blank_and_of_frame_zero() {
    let snapshot = ImageWrapper::new(4, 2);
    assert_eq!(snapshot.frame_id, 0);
    assert_eq!(snapshot.img_buffer.dimensions(), (4, 2));
    assert_eq!(snapshot.img_buffer.as_raw(), &vec![0u8; 32]);
    assert_eq!(snapshot.byte_len(), 32);
}

#[test]
fn update_data_replaces_pixels_and_frame_id() {
    let mut snapshot = ImageWrapper::new(2, 1);
    let bytes: Vec<u8> = vec![1, 2, 3, 4, 5, 6, 7, 8];
    snapshot.update_data(7, &bytes);
    assert_eq!(snapshot.frame_id, 7);
    assert_eq!(snapshot.img_buffer.as_raw(), &bytes);
    assert_eq!(snapshot.img_buffer.dimensions(), (2, 1));
    snapshot.update_data(8, &vec![0u8; 8]);
    assert_eq!(snapshot.frame_id, 8);
    assert_eq!(snapshot.img_buffer.as_raw(), &vec![0u8; 8]);
}

#[test]
fn update_data_takes_any_frame_id() {
    let mut snapshot = ImageWrapper::new(1, 1);
    snapshot.update_data(u64::MAX, &vec![1, 1, 1, 1]);
    assert_eq!(snapshot.frame_id, u64::MAX);
    snapshot.update_data(0, &vec![2, 2, 2, 2]);
    assert_eq!(snapshot.frame_id, 0);
    assert_eq!(snapshot.img_buffer.as_raw(), &vec![2u8; 4]);
}

#[test]
fn a_cloned_snapshot_keeps_what_it_had() {
    let mut snapshot = ImageWrapper::new(1, 2);
    snapshot.update_data(3, &vec![5u8; 8]);
    let copy = snapshot.clone();
    snapshot.update_data(4, &vec![6u8; 8]);
    assert_eq!(copy.frame_id, 3);
    assert_eq!(copy.img_buffer.as_raw(), &vec![5u8; 8]);
    assert_eq!(copy.img_buffer.dimensions(), (1, 2));
}

#[test]
fn byte_len_is_four_bytes_for_each_pixel() {
    assert_eq!(ImageWrapper::new(0, 0).byte_len(), 0);
    assert_eq!(ImageWrapper::new(1, 1).byte_len(), 4);
    assert_eq!(ImageWrapper::new(150, 4).byte_len(), 2400);
    assert_eq!(ImageWrapper::new(512, 128).byte_len(), 262144);
}
