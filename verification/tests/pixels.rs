use gpu_copy::pixels::PixelBuffer;

fn counting(width: u32, height: u32) -> PixelBuffer {
    let mut buf = PixelBuffer::new(width, height);
    let bytes: Vec<u8> = (0..(4 * width * height)).map(|k| (k % 251) as u8).collect();
    buf.copy_from_slice(&bytes);
    buf
}

#[test]
fn a_new_buffer_is_blank() {
    let buf = PixelBuffer::new(3, 2);
    assert_eq!(buf.dimensions(), (3, 2));
    assert_eq!(buf.as_raw(), &vec![0u8; 24]);
}

#[test]
fn a_buffer_without_pixels_is_empty() {
    let buf = PixelBuffer::new(0, 0);
    assert_eq!(buf.dimensions(), (0, 0));
    assert!(buf.as_raw().is_empty());
    let wide = PixelBuffer::new(7, 0);
    assert_eq!(wide.dimensions(), (7, 0));
    assert!(wide.as_raw().is_empty());
}

#[test]
fn copy_from_slice_overwrites_every_byte() {
    let mut buf = PixelBuffer::new(2, 2);
    let bytes: Vec<u8> = (1..=16).collect();
    buf.copy_from_slice(&bytes);
    assert_eq!(buf.as_raw(), &bytes);
    assert_eq!(buf.dimensions(), (2, 2));
    let other: Vec<u8> = (101..=116).collect();
    buf.copy_from_slice(&other);
    assert_eq!(buf.as_raw(), &other);
}

#[test]
fn crop_copies_the_rectangle() {
    // 4 by 3 pixels; pixel (i, j) starts at byte 4 * (4 * j + i).
    let buf = counting(4, 3);
    let out = buf.crop(1, 1, 2, 2);
    assert_eq!(out.dimensions(), (2, 2));
    assert_eq!(
        out.as_raw(),
        &vec![20, 21, 22, 23, 24, 25, 26, 27, 36, 37, 38, 39, 40, 41, 42, 43]
    );
}

#[test]
fn crop_of_everything_is_a_copy() {
    let buf = counting(5, 4);
    let out = buf.crop(0, 0, 5, 4);
    assert_eq!(out.dimensions(), (5, 4));
    assert_eq!(out.as_raw(), buf.as_raw());
}

#[test]
fn crop_of_nothing_is_empty() {
    let buf = counting(5, 4);
    let out = buf.crop(5, 4, 0, 0);
    assert_eq!(out.dimensions(), (0, 0));
    assert!(out.as_raw().is_empty());
    let line = buf.crop(2, 1, 3, 0);
    assert_eq!(line.dimensions(), (3, 0));
    assert!(line.as_raw().is_empty());
}

#[test]
fn crop_of_the_last_column() {
    let buf = counting(3, 3);
    let out = buf.crop(2, 0, 1, 3);
    assert_eq!(out.dimensions(), (1, 3));
    assert_eq!(out.as_raw(), &vec![8, 9, 10, 11, 20, 21, 22, 23, 32, 33, 34, 35]);
}

#[test]
fn crop_follows_its_formula() {
    let (src_w, src_h) = (7u32, 5u32);
    let buf = counting(src_w, src_h);
    let src = buf.as_raw().clone();
    for (x, y, w, h) in [(0u32, 0u32, 7u32, 5u32), (1, 2, 3, 2), (6, 4, 1, 1), (2, 0, 5, 5), (0, 3, 4, 1)] {
        let out = buf.crop(x, y, w, h);
        let raw = out.as_raw();
        assert_eq!(raw.len(), (4 * w * h) as usize);
        for k in 0..raw.len() {
            let pixel = k / 4;
            let row = pixel / w as usize;
            let col = pixel % w as usize;
            let from = 4 * ((y as usize + row) * src_w as usize + x as usize + col) + k % 4;
            assert_eq!(raw[k], src[from]);
        }
    }
}

#[test]
fn a_clone_has_bytes_of_its_own() {
    let mut buf = counting(2, 2);
    let copy = buf.clone();
    assert_eq!(copy.dimensions(), (2, 2));
    assert_eq!(copy.as_raw(), buf.as_raw());
    buf.copy_from_slice(&vec![9u8; 16]);
    assert_eq!(copy.as_raw(), &(0..16).collect::<Vec<u8>>());
    assert_eq!(buf.as_raw(), &vec![9u8; 16]);
}
