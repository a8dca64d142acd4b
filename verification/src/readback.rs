//! Reading a mapped staging buffer back into the registry.

use vstd::prelude::*;
use vstd::slice::slice_subrange;
use crate::export::GpuImageExport;
use crate::registry::{published_frame, ExportedImages};
use crate::snapshot::SnapshotView;

verus! {

/// The rows of `bytes` without their padding: of every row of
/// `padded_bytes_per_row` bytes the first `bytes_per_row` are kept.
pub open spec fn unpadded_bytes(
    bytes: Seq<u8>,
    bytes_per_row: nat,
    padded_bytes_per_row: nat,
    height: nat,
) -> Seq<u8> {
    Seq::new(
        height * bytes_per_row,
        |k: int| bytes[(k / (bytes_per_row as int)) * padded_bytes_per_row + k % (bytes_per_row as int)],
    )
}

/// Byte `column` of row `row` stands at `row * bytes_per_row + column`.
proof fn lemma_row_column(bytes_per_row: int, row: int, column: int)
    requires
        0 <= column < bytes_per_row,
        0 <= row,
    ensures
        (row * bytes_per_row + column) / bytes_per_row == row,
        (row * bytes_per_row + column) % bytes_per_row == column,
{
    vstd::arithmetic::div_mod::lemma_fundamental_div_mod_converse(
        row * bytes_per_row + column,
        bytes_per_row,
        row,
        column,
    );
}

/// Copies the first `bytes_per_row` bytes of each row of
/// `padded_bytes_per_row` bytes into a tightly packed buffer of
/// `height * bytes_per_row` bytes.
pub fn strip_row_padding(
    image_bytes: &Vec<u8>,
    bytes_per_row: usize,
    padded_bytes_per_row: usize,
    height: usize,
) -> (unpadded: Vec<u8>)
    requires
        bytes_per_row <= padded_bytes_per_row,
        image_bytes@.len() == height * padded_bytes_per_row,
    ensures
        unpadded@.len() == height * bytes_per_row,
        unpadded@ == unpadded_bytes(
            image_bytes@,
            bytes_per_row as nat,
            padded_bytes_per_row as nat,
            height as nat,
        ),
{
    let len: usize = image_bytes.len();
    proof {
        assert(height * bytes_per_row <= height * padded_bytes_per_row) by (nonlinear_arith)
            requires
                bytes_per_row <= padded_bytes_per_row,
                0 <= height,
        ;
    }
    let mut unpadded: Vec<u8> = Vec::with_capacity(height * bytes_per_row);
    let mut row: usize = 0;
    while row < height
        invariant
            row <= height,
            bytes_per_row <= padded_bytes_per_row,
            image_bytes@.len() == height * padded_bytes_per_row,
            image_bytes@.len() == len,
            unpadded@.len() == row * bytes_per_row,
            forall|k: int|
                0 <= k < unpadded@.len() ==> #[trigger] unpadded@[k] == image_bytes@[(k / (
                bytes_per_row as int)) * padded_bytes_per_row + k % (bytes_per_row as int)],
        decreases height - row,
    {
        proof {
            assert(0 <= row * padded_bytes_per_row && row * padded_bytes_per_row
                + padded_bytes_per_row <= height * padded_bytes_per_row) by (nonlinear_arith)
                requires
                    0 <= row < height,
                    0 <= padded_bytes_per_row,
            ;
            assert((row + 1) * bytes_per_row == row * bytes_per_row + bytes_per_row)
                by (nonlinear_arith);
        }
        let start: usize = row * padded_bytes_per_row;
        let padded_row = slice_subrange(image_bytes.as_slice(), start, start + bytes_per_row);
        let ghost before = unpadded@;
        unpadded.extend_from_slice(padded_row);
        proof {
            assert forall|k: int| 0 <= k < unpadded@.len() implies #[trigger] unpadded@[k]
                == image_bytes@[(k / (bytes_per_row as int)) * padded_bytes_per_row + k % (
            bytes_per_row as int)] by {
                if k >= before.len() {
                    let column = k - before.len();
                    lemma_row_column(bytes_per_row as int, row as int, column);
                    assert(unpadded@[k] == padded_row@[column]);
                } else {
                    assert(unpadded@[k] == before[k]);
                }
            }
        }
        row = row + 1;
    }
    assert(unpadded@ =~= unpadded_bytes(
        image_bytes@,
        bytes_per_row as nat,
        padded_bytes_per_row as nat,
        height as nat,
    ));
    unpadded
}

/// The frame id that follows `frame_id`; after the largest comes `0`.
pub open spec fn next_frame_id(frame_id: u64) -> u64 {
    if frame_id == u64::MAX {
        0
    } else {
        (frame_id + 1) as u64
    }
}

/// Frame ids grow from frame to frame, up to the largest.
pub proof fn lemma_frame_ids_grow(frame_id: u64)
    requires
        frame_id < u64::MAX,
    ensures
        next_frame_id(frame_id) == frame_id + 1,
        next_frame_id(frame_id) > frame_id,
{
}

/// The rows without their padding take `height * bytes_per_row` bytes,
/// whatever the padded stride is.
pub proof fn lemma_unpadded_len(
    bytes: Seq<u8>,
    other: Seq<u8>,
    bytes_per_row: nat,
    padded_bytes_per_row: nat,
    other_padded_bytes_per_row: nat,
    height: nat,
)
    ensures
        unpadded_bytes(bytes, bytes_per_row, padded_bytes_per_row, height).len() == height
            * bytes_per_row,
        unpadded_bytes(bytes, bytes_per_row, padded_bytes_per_row, height).len()
            == unpadded_bytes(other, bytes_per_row, other_padded_bytes_per_row, height).len(),
{
}

/// Taking the padding off keeps every byte of a row's pixels where it was
/// in the row: byte `column` of row `row` is byte
/// `row * padded_bytes_per_row + column` of the padded buffer.
pub proof fn lemma_unpadded_byte(
    bytes: Seq<u8>,
    bytes_per_row: nat,
    padded_bytes_per_row: nat,
    height: nat,
    row: nat,
    column: nat,
)
    requires
        row < height,
        column < bytes_per_row,
    ensures
        row * bytes_per_row + column < height * bytes_per_row,
        unpadded_bytes(bytes, bytes_per_row, padded_bytes_per_row, height)[(row * bytes_per_row
            + column) as int] == bytes[(row * padded_bytes_per_row + column) as int],
{
    lemma_row_column(bytes_per_row as int, row as int, column as int);
    assert(row * bytes_per_row + column < height * bytes_per_row) by (nonlinear_arith)
        requires
            row < height,
            column < bytes_per_row,
    ;
}

/// Starts a frame: the frame counter goes on by one, whether or not anything
/// is captured. Returns whether the frame is captured, which it is unless
/// no channel is registered.
pub fn begin_frame(frame_id: &mut u64, images: &ExportedImages) -> (capture: bool)
    ensures
        *final(frame_id) == next_frame_id(*old(frame_id)),
        capture == !images@.is_empty(),
{
    *frame_id = frame_id.wrapping_add(1);
    !images.is_empty()
}

/// How the readback of one channel ended.
#[derive(Clone, Copy, Debug, PartialEq, Eq)]
pub enum Readback {
    /// The frame was published.
    Published,
    /// The staging buffer could not be mapped: the channel keeps its
    /// snapshot.
    MapFailed,
    /// No channel of that name is registered: nothing was published.
    UnknownChannel,
}

/// The tightly packed pixels of a mapped staging buffer: the buffer itself
/// where its rows have no padding.
pub open spec fn readback_bytes(export: GpuImageExport, mapped: Seq<u8>) -> Seq<u8> {
    if export.bytes_per_row != export.padded_bytes_per_row {
        unpadded_bytes(
            mapped,
            export.bytes_per_row as nat,
            export.padded_bytes_per_row as nat,
            export.source_size.1 as nat,
        )
    } else {
        mapped
    }
}

/// A staging buffer of `export` that was mapped to `mapped_len` bytes, or
/// could not be mapped, can be read back into channel `name`. One that
/// could not be mapped always can. Of a mapped one the tight stride is not
/// above the padded one, the buffer holds one padded row for each row of
/// the texture, and the channel, where it is registered, holds as many
/// bytes as those rows without their padding.
pub open spec fn readback_fits(
    images: Map<Seq<char>, SnapshotView>,
    name: Seq<char>,
    export: GpuImageExport,
    mapped_len: Option<nat>,
) -> bool {
    mapped_len matches Some(len) ==> {
        &&& export.bytes_per_row <= export.padded_bytes_per_row
        &&& len == export.spec_buffer_size()
        &&& images.contains_key(name) ==> images[name].pixels.bytes.len()
            == export.spec_unpadded_size()
    }
}

/// The length of a mapped buffer, if there is one.
pub open spec fn mapped_len(mapped: Option<Vec<u8>>) -> Option<nat> {
    match mapped {
        Some(bytes) => Some(bytes@.len()),
        None => None,
    }
}

/// The bytes of a mapped buffer, if there is one.
pub open spec fn mapped_bytes(mapped: Option<Vec<u8>>) -> Option<Seq<u8>> {
    match mapped {
        Some(bytes) => Some(bytes@),
        None => None,
    }
}

/// Whether a staging buffer of `export` that was mapped to `len` bytes can
/// be read back into channel `name`.
pub fn can_read_back(
    images: &ExportedImages,
    name: &String,
    export: &GpuImageExport,
    len: usize,
) -> (fits: bool)
    requires
        images.wf(),
    ensures
        fits == readback_fits(images@, name@, *export, Some(len as nat)),
{
    if export.bytes_per_row > export.padded_bytes_per_row {
        return false;
    }
    if len as u64 != export.buffer_size() {
        return false;
    }
    match images.get(name) {
        Some(image) => image.byte_len() as u64 == export.unpadded_size(),
        None => true,
    }
}

/// The registry after the readback of channel `name` ended with `mapped`.
pub open spec fn after_readback(
    images: Map<Seq<char>, SnapshotView>,
    name: Seq<char>,
    frame_id: u64,
    export: GpuImageExport,
    mapped: Option<Seq<u8>>,
) -> Map<Seq<char>, SnapshotView> {
    match mapped {
        Some(bytes) => published_frame(images, name, frame_id, readback_bytes(export, bytes)),
        None => images,
    }
}

/// Ends the readback of channel `name` in frame `frame_id`. `mapped` holds
/// the bytes of the channel's staging buffer, or nothing where the buffer
/// could not be mapped. The padding of the rows is taken off and the pixels
/// are published under `name`; a channel whose buffer could not be mapped
/// keeps the snapshot that it had.
pub fn complete_readback(
    images: &mut ExportedImages,
    name: &String,
    frame_id: u64,
    export: &GpuImageExport,
    mapped: Option<Vec<u8>>,
) -> (outcome: Readback)
    requires
        old(images).wf(),
        readback_fits(old(images)@, name@, *export, mapped_len(mapped)),
    ensures
        final(images).wf(),
        final(images)@ == after_readback(
            old(images)@,
            name@,
            frame_id,
            *export,
            mapped_bytes(mapped),
        ),
        outcome == match mapped {
            Some(_) => if old(images)@.contains_key(name@) {
                Readback::Published
            } else {
                Readback::UnknownChannel
            },
            None => Readback::MapFailed,
        },
{
    match mapped {
        None => Readback::MapFailed,
        Some(bytes) => {
            let (bytes_per_row, padded_bytes_per_row, source_size) = export.get_bps();
            let image_bytes = if bytes_per_row != padded_bytes_per_row {
                strip_row_padding(
                    &bytes,
                    bytes_per_row,
                    padded_bytes_per_row,
                    source_size.1 as usize,
                )
            } else {
                bytes
            };
            if images.publish(name, frame_id, &image_bytes) {
                Readback::Published
            } else {
                Readback::UnknownChannel
            }
        },
    }
}

} // verus!
