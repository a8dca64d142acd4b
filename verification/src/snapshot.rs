//! The CPU-side copy of one channel's atlas.

use vstd::prelude::*;
use crate::pixels::{blank, rgba_len, PixelBuffer, PixelsView};

verus! {

/// The latest pixels of a channel and the id of the frame they were read in.
pub struct ImageWrapper {
    pub img_buffer: PixelBuffer,
    pub frame_id: u64,
}

/// What a snapshot holds.
pub struct SnapshotView {
    pub pixels: PixelsView,
    pub frame_id: u64,
}

impl View for ImageWrapper {
    type V = SnapshotView;

    open spec fn view(&self) -> SnapshotView {
        SnapshotView { pixels: self.img_buffer@, frame_id: self.frame_id }
    }
}

impl Clone for ImageWrapper {
    fn clone(&self) -> (out: Self)
        ensures
            out@ == self@,
    {
        ImageWrapper { img_buffer: self.img_buffer.clone(), frame_id: self.frame_id }
    }
}

impl ImageWrapper {
    /// A snapshot of `width` by `height` zero pixels that no frame has
    /// reached yet: its frame id is `0`.
    pub fn new(width: u32, height: u32) -> (snapshot: Self)
        requires
            rgba_len(width as nat, height as nat) <= isize::MAX,
        ensures
            snapshot@ == (SnapshotView { pixels: blank(width as nat, height as nat), frame_id: 0 }),
            snapshot.img_buffer.wf(),
    {
        ImageWrapper { img_buffer: PixelBuffer::new(width, height), frame_id: 0 }
    }

    /// Replaces the pixels by `image_bytes` and stamps them with `frame_id`.
    /// The size stays as it is, so `image_bytes` must hold as many bytes as
    /// the snapshot does.
    pub fn update_data(&mut self, frame_id: u64, image_bytes: &Vec<u8>)
        requires
            image_bytes@.len() == old(self)@.pixels.bytes.len(),
        ensures
            final(self)@ == (SnapshotView {
                pixels: PixelsView { bytes: image_bytes@, ..old(self)@.pixels },
                frame_id,
            }),
            final(self).img_buffer.wf(),
    {
        self.frame_id = frame_id;
        self.img_buffer.copy_from_slice(image_bytes);
    }

    /// The number of bytes that [`ImageWrapper::update_data`] takes.
    pub fn byte_len(&self) -> (len: usize)
        ensures
            len == self@.pixels.bytes.len(),
            len == rgba_len(self@.pixels.width, self@.pixels.height),
    {
        self.img_buffer.as_raw().len()
    }
}

} // verus!
