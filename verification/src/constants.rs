//! Fixed geometry of the panel and of its scan buffer.

use vstd::prelude::*;

verus! {

/// Logical width of the panel, in pixels.
pub const WIDTH: usize = 32;

/// Logical height of the panel, in pixels.
pub const HEIGHT: usize = 32;

/// Number of pixels of one frame.
pub const PIXEL_COUNT: usize = 1024;

/// Number of electrical rows of the panel.
pub const ROW_COUNT: usize = 16;

/// Number of electrical columns of one row.
pub const COLUMN_COUNT: usize = 64;

/// Number of bit-planes held for each row.
pub const BCD_FRAME_COUNT: usize = 14;

/// Number of bytes of one bit-plane.
pub const BCD_FRAME_BYTES: usize = 72;

/// Number of bytes of one row: all its bit-planes.
pub const ROW_BYTES: usize = 1008;

/// Number of bytes of a whole scan buffer.
pub const BITSTREAM_LENGTH: usize = 16128;

/// Number of 32-bit words of a whole scan buffer.
pub const BITSTREAM_WORDS: usize = 4032;

/// Offset, inside a bit-plane, of the byte that holds the column count minus one.
pub const COLUMN_COUNT_OFFSET: usize = 0;

/// Offset, inside a bit-plane, of the row-select byte.
pub const ROW_SELECT_OFFSET: usize = 1;

/// Offset, inside a bit-plane, of the first pixel byte.
pub const PIXEL_DATA_OFFSET: usize = 2;

/// Offset, inside a bit-plane, of the little-endian tick count.
pub const BCD_TICKS_OFFSET: usize = 68;

/// The geometry is consistent: rows, bit-planes and bytes multiply out.
pub proof fn lemma_geometry()
    ensures
        PIXEL_COUNT == WIDTH * HEIGHT,
        PIXEL_COUNT == ROW_COUNT * COLUMN_COUNT,
        ROW_BYTES == BCD_FRAME_COUNT * BCD_FRAME_BYTES,
        BITSTREAM_LENGTH == ROW_COUNT * ROW_BYTES,
        BITSTREAM_LENGTH == 4 * BITSTREAM_WORDS,
        PIXEL_DATA_OFFSET + COLUMN_COUNT <= BCD_TICKS_OFFSET,
        BCD_TICKS_OFFSET + 4 == BCD_FRAME_BYTES,
{
}

} // verus!
