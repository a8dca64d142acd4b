//! The RGBA8 pixel store of a snapshot.

use vstd::prelude::*;
use image::{GenericImageView, ImageBuffer, Rgba};

verus! {

/// A rectangle of RGBA8 pixels, stored row by row with four bytes per pixel
/// and no padding between rows.
///
/// The pixels live in an `image::ImageBuffer<Rgba<u8>, Vec<u8>>`. Every value
/// of this type is made by [`PixelBuffer::new`], [`PixelBuffer::crop`] or
/// `clone`, so its buffer holds exactly `4 * width * height` bytes.
#[verifier::external_body]
#[derive(Debug)]
pub struct PixelBuffer {
    inner: ImageBuffer<Rgba<u8>, Vec<u8>>,
}

/// The bytes that a pixel buffer holds.
pub uninterp spec fn pixel_bytes(buf: PixelBuffer) -> Seq<u8>;

/// The width and the height of a pixel buffer, in pixels.
pub uninterp spec fn pixel_size(buf: PixelBuffer) -> (nat, nat);

/// What a pixel buffer holds: its size in pixels and its bytes.
pub struct PixelsView {
    pub width: nat,
    pub height: nat,
    pub bytes: Seq<u8>,
}

impl View for PixelBuffer {
    type V = PixelsView;

    open spec fn view(&self) -> PixelsView {
        PixelsView {
            width: pixel_size(*self).0,
            height: pixel_size(*self).1,
            bytes: pixel_bytes(*self),
        }
    }
}

/// The number of bytes of `width` by `height` RGBA8 pixels.
pub open spec fn rgba_len(width: nat, height: nat) -> nat {
    4 * width * height
}

/// The index, in a buffer of rows `src_width` pixels wide, of byte `k` of the
/// `width` pixels wide rectangle whose top left corner is at `(x, y)`.
pub open spec fn crop_source_index(src_width: nat, x: nat, y: nat, width: nat, k: int) -> int {
    let pixel = k / 4;
    4 * ((y + pixel / (width as int)) * src_width + x + pixel % (width as int)) + k % 4
}

/// The bytes of the `width` by `height` rectangle at `(x, y)` of `src`.
pub open spec fn cropped_bytes(
    src: PixelsView,
    x: nat,
    y: nat,
    width: nat,
    height: nat,
) -> Seq<u8> {
    Seq::new(
        rgba_len(width, height),
        |k: int| src.bytes[crop_source_index(src.width, x, y, width, k)],
    )
}

/// The `width` by `height` rectangle at `(x, y)` of `src`.
pub open spec fn cropped(src: PixelsView, x: nat, y: nat, width: nat, height: nat) -> PixelsView {
    PixelsView { width, height, bytes: cropped_bytes(src, x, y, width, height) }
}

/// `width` by `height` pixels that are all zero.
pub open spec fn blank(width: nat, height: nat) -> PixelsView {
    PixelsView { width, height, bytes: Seq::new(rgba_len(width, height), |k: int| 0u8) }
}

/// Calls `ImageBuffer::new`, which allocates `4 * width * height` zero bytes
/// and panics where that count overflows.
#[verifier::external_body]
fn image_new(width: u32, height: u32) -> (buf: PixelBuffer)
    requires
        rgba_len(width as nat, height as nat) <= isize::MAX,
    ensures
        pixel_size(buf) == (width as nat, height as nat),
        pixel_bytes(buf) == blank(width as nat, height as nat).bytes,
{
    PixelBuffer { inner: ImageBuffer::new(width, height) }
}

/// Calls `ImageBuffer::dimensions`, which returns the width and the height
/// that the buffer was made with. The buffer holds four bytes for each of
/// its pixels.
#[verifier::external_body]
fn image_dimensions(buf: &PixelBuffer) -> (d: (u32, u32))
    ensures
        pixel_size(*buf) == (d.0 as nat, d.1 as nat),
        pixel_bytes(*buf).len() == rgba_len(d.0 as nat, d.1 as nat),
{
    buf.inner.dimensions()
}

/// Calls `ImageBuffer::as_raw`, which lends the underlying byte vector.
#[verifier::external_body]
fn image_as_raw(buf: &PixelBuffer) -> (raw: &Vec<u8>)
    ensures
        raw@ == pixel_bytes(*buf),
{
    buf.inner.as_raw()
}

/// Calls `copy_from_slice` on the buffer's bytes, reached through the
/// buffer's `DerefMut`: every byte is overwritten, the size stays. It panics
/// where the two lengths differ.
#[verifier::external_body]
fn image_copy_from_slice(buf: &mut PixelBuffer, src: &Vec<u8>)
    requires
        src@.len() == pixel_bytes(*old(buf)).len(),
    ensures
        pixel_bytes(*final(buf)) == src@,
        pixel_size(*final(buf)) == pixel_size(*old(buf)),
{
    buf.inner.copy_from_slice(src)
}

/// Calls `GenericImageView::view` and `SubImage::to_image` on its result:
/// a new buffer of `width` by `height` pixels whose pixel `(i, j)` is pixel
/// `(x + i, y + j)` of `buf`. `view` panics where the rectangle leaves `buf`.
#[verifier::external_body]
fn image_crop(buf: &PixelBuffer, x: u32, y: u32, width: u32, height: u32) -> (out: PixelBuffer)
    requires
        x + width <= pixel_size(*buf).0,
        y + height <= pixel_size(*buf).1,
    ensures
        pixel_size(out) == (width as nat, height as nat),
        pixel_bytes(out) == cropped_bytes(buf@, x as nat, y as nat, width as nat, height as nat),
{
    PixelBuffer { inner: buf.inner.view(x, y, width, height).to_image() }
}

/// Calls `ImageBuffer::clone`, which copies the size and the bytes.
#[verifier::external_body]
fn image_clone(buf: &PixelBuffer) -> (out: PixelBuffer)
    ensures
        pixel_size(out) == pixel_size(*buf),
        pixel_bytes(out) == pixel_bytes(*buf),
{
    PixelBuffer { inner: buf.inner.clone() }
}

impl Clone for PixelBuffer {
    fn clone(&self) -> (out: Self)
        ensures
            out@ == self@,
    {
        image_clone(self)
    }
}

impl PixelBuffer {
    /// The buffer holds four bytes for each of its pixels.
    pub open spec fn wf(&self) -> bool {
        self@.bytes.len() == rgba_len(self@.width, self@.height)
    }

    /// A buffer of `width` by `height` pixels, all of them zero.
    pub fn new(width: u32, height: u32) -> (buf: Self)
        requires
            rgba_len(width as nat, height as nat) <= isize::MAX,
        ensures
            buf@ == blank(width as nat, height as nat),
            buf.wf(),
    {
        image_new(width, height)
    }

    /// The width and the height in pixels.
    pub fn dimensions(&self) -> (d: (u32, u32))
        ensures
            d.0 == self@.width,
            d.1 == self@.height,
            self.wf(),
    {
        image_dimensions(self)
    }

    /// The bytes, row by row.
    pub fn as_raw(&self) -> (raw: &Vec<u8>)
        ensures
            raw@ == self@.bytes,
            self.wf(),
    {
        let _ = image_dimensions(self);
        image_as_raw(self)
    }

    /// Overwrites every byte with the byte of `bytes` at the same index.
    pub fn copy_from_slice(&mut self, bytes: &Vec<u8>)
        requires
            bytes@.len() == old(self)@.bytes.len(),
        ensures
            final(self)@ == (PixelsView { bytes: bytes@, ..old(self)@ }),
            final(self).wf(),
    {
        image_copy_from_slice(self, bytes);
        let _ = image_dimensions(self);
    }

    /// A copy of the `width` by `height` rectangle whose top left corner is
    /// at `(x, y)`.
    pub fn crop(&self, x: u32, y: u32, width: u32, height: u32) -> (out: Self)
        requires
            x + width <= self@.width,
            y + height <= self@.height,
        ensures
            out@ == cropped(self@, x as nat, y as nat, width as nat, height as nat),
            out.wf(),
    {
        image_crop(self, x, y, width, height)
    }
}

} // verus!
