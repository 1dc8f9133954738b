//! The read-back engine and the upload packing it mirrors.
//!
//! An image travels between host and device through a pitch-padded staging
//! buffer: each row of `width_bytes` pixels starts at a multiple of the
//! padded `row_pitch`. Packing writes rows at that stride; the fetch guard
//! reads them back at the same stride, so the bytes of every row survive the
//! round trip unchanged whatever padding the alignment inserted.
use vstd::prelude::*;

use crate::desc::{ImageLayout, ImageState, ACCESS_TRANSFER_READ};

verus! {

/// The contents of a pitch-padded staging buffer holding `rows` rows of
/// `width` payload bytes each, padded to `pitch`: row `y` of `data` occupies
/// bytes `y * pitch .. y * pitch + width`, and padding bytes are zero.
pub open spec fn packed_spec(data: Seq<u8>, width: int, pitch: int, rows: int) -> Seq<u8> {
    Seq::new(
        (rows * pitch) as nat,
        |i: int| if i % pitch < width {
            data[(i / pitch) * width + i % pitch]
        } else {
            0u8
        },
    )
}

/// Streams tightly packed row data into a pitch-padded staging layout:
/// row `y`'s `width` bytes land at offset `y * pitch`; padding is zeroed.
pub fn pack_rows(data: &Vec<u8>, width: usize, pitch: usize, rows: usize) -> (r: Vec<u8>)
    requires
        0 < width <= pitch,
        data@.len() >= rows * width,
        rows * pitch <= usize::MAX,
    ensures
        r@ == packed_spec(data@, width as int, pitch as int, rows as int),
{
    let ghost spec_out = packed_spec(data@, width as int, pitch as int, rows as int);
    proof {
        assert(rows * width <= rows * pitch) by (nonlinear_arith)
            requires
                width <= pitch,
                0 <= rows,
        ;
    }
    let mut out: Vec<u8> = Vec::new();
    let mut y: usize = 0;
    while y < rows
        invariant
            0 < width <= pitch,
            data@.len() >= rows * width,
            rows * pitch <= usize::MAX,
            rows * width <= usize::MAX,
            y <= rows,
            out@.len() == y * pitch,
            spec_out == packed_spec(data@, width as int, pitch as int, rows as int),
            forall|i: int| 0 <= i < out@.len() ==> out@[i] == spec_out[i],
        decreases rows - y,
    {
        proof {
            assert(y * pitch + pitch <= rows * pitch && y * width + width <= rows * width)
                by (nonlinear_arith)
                requires
                    y < rows,
                    0 < width,
                    0 < pitch,
            ;
        }
        let row_base: usize = y * pitch;
        let mut j: usize = 0;
        while j < pitch
            invariant
                0 < width <= pitch,
                data@.len() >= rows * width,
                rows * pitch <= usize::MAX,
                rows * width <= usize::MAX,
                y < rows,
                row_base == y * pitch,
                row_base + pitch <= rows * pitch,
                y * width + width <= rows * width,
                j <= pitch,
                out@.len() == row_base + j,
                spec_out == packed_spec(data@, width as int, pitch as int, rows as int),
                forall|i: int| 0 <= i < out@.len() ==> out@[i] == spec_out[i],
            decreases pitch - j,
        {
            proof {
                let i = (row_base + j) as int;
                vstd::arithmetic::div_mod::lemma_fundamental_div_mod_converse(
                    i,
                    pitch as int,
                    y as int,
                    j as int,
                );
                assert(i / pitch as int == y as int && i % pitch as int == j as int);
            }
            let b: u8 = if j < width {
                data[y * width + j]
            } else {
                0u8
            };
            out.push(b);
            j += 1;
        }
        proof {
            assert((y + 1) * pitch == y * pitch + pitch) by (nonlinear_arith);
        }
        y += 1;
    }
    proof {
        assert(out@ =~= spec_out);
    }
    out
}

/// Row `y` read back at the padded stride is exactly row `y` of the packed
/// payload: pitch padding never leaks into a row.
pub proof fn lemma_packed_row_roundtrip(data: Seq<u8>, width: int, pitch: int, rows: int, y: int)
    requires
        0 < width <= pitch,
        data.len() >= rows * width,
        0 <= y < rows,
    ensures
        packed_spec(data, width, pitch, rows).subrange(y * pitch, y * pitch + width)
            =~= data.subrange(y * width, y * width + width),
{
    let packed = packed_spec(data, width, pitch, rows);
    assert(y * pitch + pitch <= rows * pitch && y * width + width <= rows * width)
        by (nonlinear_arith)
        requires
            0 <= y < rows,
            0 < width,
            0 < pitch,
    ;
    let lhs = packed.subrange(y * pitch, y * pitch + width);
    let rhs = data.subrange(y * width, y * width + width);
    assert forall|j: int| 0 <= j < lhs.len() implies #[trigger] lhs[j] == rhs[j] by {
        let i = y * pitch + j;
        vstd::arithmetic::div_mod::lemma_fundamental_div_mod_converse(i, pitch, y, j);
        assert(i / pitch == y && i % pitch == j);
        assert(lhs[j] == packed[i] && rhs[j] == data[y * width + j]);
    }
}

/// The plan one `fetch_image` call executes: the staging geometry, and the
/// barrier pair that moves the image out of its stable state to be read and
/// back into the same stable state afterwards.
pub struct FetchPlan {
    pub image: String,
    pub width_bytes: u64,
    pub row_pitch: u64,
    pub rows: u64,
    pub buffer_size: u64,
    /// Stable state to transfer-source, before the copy.
    pub pre_barrier: (ImageState, ImageState),
    /// Transfer-source back to the stable state, after the copy.
    pub post_barrier: (ImageState, ImageState),
}

/// The transient state an image is read back through.
pub open spec fn transfer_source_state() -> ImageState {
    ImageState { access: ACCESS_TRANSFER_READ, layout: ImageLayout::TransferSrcOptimal }
}

/// The transient state an image is read back through.
pub fn transfer_source() -> (r: ImageState)
    ensures
        r == transfer_source_state(),
{
    ImageState { access: ACCESS_TRANSFER_READ, layout: ImageLayout::TransferSrcOptimal }
}

impl FetchPlan {
    /// The barrier pair is a round trip: it leaves the stable state, reads,
    /// and restores exactly the state it left.
    pub open spec fn restores(&self, stable: ImageState) -> bool {
        &&& self.pre_barrier == (stable, transfer_source_state())
        &&& self.post_barrier == (transfer_source_state(), stable)
    }
}

/// What tearing a fetch guard down does to the device, in order; each object
/// is touched exactly once.
#[derive(Clone, Copy, PartialEq, Eq, Structural, Debug)]
pub enum ReleaseAction {
    UnmapBuffer { buffer: u64 },
    DestroyBuffer { buffer: u64 },
    FreeMemory { memory: u64 },
}

/// A scope-bound view of fetched image bytes. It owns the mapped staging
/// buffer's contents and the ids of the buffer and memory behind them;
/// consuming it yields the release actions, so they can be issued once and
/// only once.
pub struct FetchGuard {
    pub bytes: Vec<u8>,
    pub row_pitch: usize,
    pub width: usize,
    pub rows: usize,
    pub buffer: u64,
    pub memory: u64,
}

impl FetchGuard {
    /// The geometry is consistent with the mapped bytes.
    pub open spec fn wf(&self) -> bool {
        &&& 0 < self.width <= self.row_pitch
        &&& self.bytes@.len() == self.rows * self.row_pitch
    }

    /// Wraps mapped staging-buffer bytes for row-indexed access.
    pub fn new(bytes: Vec<u8>, row_pitch: usize, width: usize, rows: usize, buffer: u64, memory: u64) -> (r:
        FetchGuard)
        requires
            0 < width <= row_pitch,
            bytes@.len() == rows * row_pitch,
        ensures
            r.wf(),
            r.bytes == bytes,
            r.row_pitch == row_pitch,
            r.width == width,
            r.rows == rows,
            r.buffer == buffer,
            r.memory == memory,
    {
        FetchGuard { bytes, row_pitch, width, rows, buffer, memory }
    }

    /// Row `i` of the image: the `width` payload bytes at stride `row_pitch`,
    /// without the pitch padding.
    pub fn row(&self, i: usize) -> (r: &[u8])
        requires
            self.wf(),
            i < self.rows,
        ensures
            r@ == self.bytes@.subrange(
                i * self.row_pitch as int,
                i * self.row_pitch + self.width,
            ),
    {
        let n = self.bytes.len();
        proof {
            assert(i * self.row_pitch + self.width <= self.rows * self.row_pitch)
                by (nonlinear_arith)
                requires
                    i < self.rows,
                    0 < self.width,
                    self.width <= self.row_pitch,
            ;
            assert(i * self.row_pitch + self.width <= n);
        }
        let offset: usize = i * self.row_pitch;
        vstd::slice::slice_subrange(self.bytes.as_slice(), offset, offset + self.width)
    }

    /// Releases the mapping, the staging buffer, and its memory, in that
    /// order. Consuming the guard guarantees the actions are produced exactly
    /// once; no row access can follow.
    pub fn release(self) -> (r: Vec<ReleaseAction>)
        ensures
            r@ =~= seq![
                ReleaseAction::UnmapBuffer { buffer: self.buffer },
                ReleaseAction::DestroyBuffer { buffer: self.buffer },
                ReleaseAction::FreeMemory { memory: self.memory },
            ],
    {
        let mut actions: Vec<ReleaseAction> = Vec::new();
        actions.push(ReleaseAction::UnmapBuffer { buffer: self.buffer });
        actions.push(ReleaseAction::DestroyBuffer { buffer: self.buffer });
        actions.push(ReleaseAction::FreeMemory { memory: self.memory });
        actions
    }
}

} // verus!
