//! The byte strides of a channel's staging buffer.

use vstd::prelude::*;

verus! {

/// The alignment, in bytes, that a device asks of every row of a texture
/// that is copied into a buffer.
pub const COPY_BYTES_PER_ROW_ALIGNMENT: u32 = 256;

/// `m` is a multiple of `align`.
pub open spec fn is_aligned(m: nat, align: nat) -> bool {
    m % align == 0
}

/// `n` rounded up to a multiple of `align`.
pub open spec fn aligned_up(n: nat, align: nat) -> nat {
    if n % align == 0 {
        n
    } else {
        (n + align - n % align) as nat
    }
}

/// `aligned_up(n, align)` is the smallest multiple of `align` that is not
/// below `n`.
pub proof fn lemma_aligned_up(n: nat, align: nat)
    requires
        align > 0,
    ensures
        is_aligned(aligned_up(n, align), align),
        n <= aligned_up(n, align) < n + align,
        forall|m: nat| #[trigger] is_aligned(m, align) && m >= n ==> aligned_up(n, align) <= m,
{
    let a = align as int;
    let r = n as int % a;
    let up = aligned_up(n, align) as int;
    vstd::arithmetic::div_mod::lemma_mod_bound(n as int, a);
    vstd::arithmetic::div_mod::lemma_fundamental_div_mod(n as int, a);
    let q = n as int / a;
    if r != 0 {
        assert(up == a * (q + 1)) by (nonlinear_arith)
            requires
                n == a * q + r,
                up == n + a - r,
        ;
        vstd::arithmetic::div_mod::lemma_mod_multiples_basic(q + 1, a);
        assert(a * (q + 1) == (q + 1) * a) by (nonlinear_arith);
    }
    assert forall|m: nat| #[trigger] is_aligned(m, align) && m >= n implies up <= m by {
        let mq = m as int / a;
        vstd::arithmetic::div_mod::lemma_fundamental_div_mod(m as int, a);
        if r != 0 {
            assert(mq >= q + 1) by (nonlinear_arith)
                requires
                    m == a * mq,
                    n == a * q + r,
                    0 < r < a,
                    m >= n,
            ;
            assert(a * mq >= a * (q + 1)) by (nonlinear_arith)
                requires
                    mq >= q + 1,
                    a > 0,
            ;
        }
    }
}

/// Rounds a row of `row_bytes` bytes up to the copy alignment.
pub fn align_copy_bytes_per_row(row_bytes: usize) -> (padded: usize)
    requires
        row_bytes + (COPY_BYTES_PER_ROW_ALIGNMENT - 1) <= usize::MAX,
    ensures
        padded == aligned_up(row_bytes as nat, COPY_BYTES_PER_ROW_ALIGNMENT as nat),
{
    let align: usize = COPY_BYTES_PER_ROW_ALIGNMENT as usize;
    let padded_bytes_per_row_padding: usize = (align - row_bytes % align) % align;
    row_bytes + padded_bytes_per_row_padding
}

/// The strides of one channel: how many bytes a row of its texture holds,
/// how many bytes a row takes in the staging buffer, and the size of the
/// texture in pixels.
#[derive(Clone, Copy, Debug)]
pub struct GpuImageExport {
    pub source_size: (u32, u32),
    pub bytes_per_row: u32,
    pub padded_bytes_per_row: u32,
}

/// The bytes of one tightly packed row of a texture `width` pixels wide,
/// in a format whose blocks are `block_width` pixels wide and `block_size`
/// bytes large.
pub open spec fn row_bytes(width: nat, block_width: nat, block_size: nat) -> nat {
    (width / block_width) * block_size
}

impl GpuImageExport {
    /// The padded stride is the tight one, rounded up to the copy alignment.
    pub open spec fn wf(&self) -> bool {
        self.padded_bytes_per_row == aligned_up(
            self.bytes_per_row as nat,
            COPY_BYTES_PER_ROW_ALIGNMENT as nat,
        )
    }

    /// The size in bytes of the staging buffer: one padded row for every row
    /// of the texture.
    pub open spec fn spec_buffer_size(&self) -> nat {
        (self.source_size.1 * self.padded_bytes_per_row) as nat
    }

    /// The size in bytes of the tightly packed pixels.
    pub open spec fn spec_unpadded_size(&self) -> nat {
        (self.source_size.1 * self.bytes_per_row) as nat
    }

    /// The strides for a texture of `source_size` pixels in a format whose
    /// blocks are `block_dimensions` pixels and `block_size` bytes large.
    /// There are none where the format has no block width or a stride does
    /// not fit in `u32`.
    pub fn prepare(source_size: (u32, u32), block_dimensions: (u32, u32), block_size: u32) -> (export:
        Option<Self>)
        ensures
            export is Some <==> {
                &&& block_dimensions.0 > 0
                &&& aligned_up(
                    row_bytes(source_size.0 as nat, block_dimensions.0 as nat, block_size as nat),
                    COPY_BYTES_PER_ROW_ALIGNMENT as nat,
                ) <= u32::MAX
            },
            export matches Some(e) ==> {
                &&& e.wf()
                &&& e.source_size == source_size
                &&& e.bytes_per_row == row_bytes(
                    source_size.0 as nat,
                    block_dimensions.0 as nat,
                    block_size as nat,
                )
            },
    {
        if block_dimensions.0 == 0 {
            return None;
        }
        let blocks: u64 = (source_size.0 / block_dimensions.0) as u64;
        proof {
            assert(blocks * block_size <= 0xffff_ffff * 0xffff_ffff) by (nonlinear_arith)
                requires
                    0 <= blocks <= 0xffff_ffff,
                    0 <= block_size <= 0xffff_ffff,
            ;
            lemma_aligned_up((blocks * block_size) as nat, COPY_BYTES_PER_ROW_ALIGNMENT as nat);
        }
        let bytes_per_row: u64 = blocks * (block_size as u64);
        if bytes_per_row > (u32::MAX - (COPY_BYTES_PER_ROW_ALIGNMENT - 1)) as u64 {
            return None;
        }
        let padded_bytes_per_row: usize = align_copy_bytes_per_row(bytes_per_row as usize);
        Some(
            GpuImageExport {
                source_size,
                bytes_per_row: bytes_per_row as u32,
                padded_bytes_per_row: padded_bytes_per_row as u32,
            },
        )
    }

    /// The two strides and the texture size.
    pub fn get_bps(&self) -> (bps: (usize, usize, (u32, u32)))
        ensures
            bps.0 == self.bytes_per_row,
            bps.1 == self.padded_bytes_per_row,
            bps.2 == self.source_size,
    {
        (self.bytes_per_row as usize, self.padded_bytes_per_row as usize, self.source_size)
    }

    /// The size in bytes of the staging buffer.
    pub fn buffer_size(&self) -> (size: u64)
        ensures
            size == self.spec_buffer_size(),
    {
        proof {
            assert(self.source_size.1 * self.padded_bytes_per_row <= 0xffff_ffff * 0xffff_ffff)
                by (nonlinear_arith)
                requires
                    0 <= self.source_size.1 <= 0xffff_ffff,
                    0 <= self.padded_bytes_per_row <= 0xffff_ffff,
            ;
        }
        (self.source_size.1 as u64) * (self.padded_bytes_per_row as u64)
    }

    /// The size in bytes of the tightly packed pixels.
    pub fn unpadded_size(&self) -> (size: u64)
        ensures
            size == self.spec_unpadded_size(),
    {
        proof {
            assert(self.source_size.1 * self.bytes_per_row <= 0xffff_ffff * 0xffff_ffff)
                by (nonlinear_arith)
                requires
                    0 <= self.source_size.1 <= 0xffff_ffff,
                    0 <= self.bytes_per_row <= 0xffff_ffff,
            ;
        }
        (self.source_size.1 as u64) * (self.bytes_per_row as u64)
    }
}

} // verus!
