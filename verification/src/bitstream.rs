//! The scan buffer: its byte layout, its headers, and the writing of one
//! pixel into its fourteen bit-planes.
//!
//! A scan buffer holds sixteen rows. A row holds fourteen bit-planes, the
//! least significant first, and a bit-plane holds 72 bytes:
//!
//! | offset | meaning                                             |
//! |--------|-----------------------------------------------------|
//! | 0      | number of columns of the row, minus one             |
//! | 1      | row-select index                                    |
//! | 2..66  | one byte for each of the 64 columns: blue, green,   |
//! |        | red in bits 0, 1, 2                                 |
//! | 66..68 | padding up to a word boundary                       |
//! | 68..72 | little-endian tick count, two to the plane's number |
//!
//! The buffer is stored as 32-bit words, so that it is word-aligned and can
//! be handed to a transfer engine word by word. Byte `k` of the buffer is
//! byte `k % 4` of word `k / 4`, the least significant byte being byte 0.

use crate::constants::{
    BCD_FRAME_BYTES, BCD_FRAME_COUNT, BCD_TICKS_OFFSET, BITSTREAM_LENGTH, BITSTREAM_WORDS,
    COLUMN_COUNT, HEIGHT, PIXEL_DATA_OFFSET, ROW_BYTES, ROW_COUNT, ROW_SELECT_OFFSET, WIDTH,
};
use crate::gamma::{correct, corrected};
use vstd::arithmetic::power2::{lemma2_to64, lemma_pow2_strictly_increases, pow2};
use vstd::bits::lemma_u32_shl_is_mul;
use vstd::prelude::*;

verus! {

/// The words of one scan buffer.
pub type Buffer = [u32; BITSTREAM_WORDS];

/// The bytes of one scan buffer, one by one.
pub type ByteBuffer = [u8; BITSTREAM_LENGTH];

/// The row that the byte at `offset` belongs to.
pub open spec fn row_of(offset: int) -> int {
    offset / (ROW_BYTES as int)
}

/// The bit-plane, within its row, that the byte at `offset` belongs to.
pub open spec fn frame_of(offset: int) -> int {
    (offset % (ROW_BYTES as int)) / (BCD_FRAME_BYTES as int)
}

/// The place of the byte at `offset` inside its bit-plane.
pub open spec fn field_of(offset: int) -> int {
    offset % (BCD_FRAME_BYTES as int)
}

/// The offset of the first byte of a bit-plane.
pub open spec fn plane_start(row: int, frame: int) -> int {
    row * ROW_BYTES + frame * BCD_FRAME_BYTES
}

/// The offset of the byte that holds one column of one bit-plane.
pub open spec fn cell_offset(row: int, frame: int, column: int) -> int {
    plane_start(row, frame) + PIXEL_DATA_OFFSET + column
}

/// Whether `offset` lies inside a scan buffer.
pub open spec fn in_buffer(offset: int) -> bool {
    0 <= offset < BITSTREAM_LENGTH
}

/// Whether the byte at `offset` is one that the headers fix.
pub open spec fn is_header(offset: int) -> bool {
    field_of(offset) < PIXEL_DATA_OFFSET || field_of(offset) >= BCD_TICKS_OFFSET
}

/// Whether the byte at `offset` holds pixel data.
pub open spec fn is_pixel_data(offset: int) -> bool {
    PIXEL_DATA_OFFSET <= field_of(offset) < PIXEL_DATA_OFFSET + COLUMN_COUNT
}

/// The column whose pixel data the byte at `offset` holds.
pub open spec fn column_of(offset: int) -> int {
    field_of(offset) - PIXEL_DATA_OFFSET
}

/// The time for which a bit-plane is shown: two to the plane's number.
pub open spec fn tick_count(frame: int) -> u32 {
    1u32 << (frame as u32)
}

/// One byte of a 32-bit value, the least significant being byte 0.
pub open spec fn le_byte(value: u32, index: int) -> u8 {
    ((value >> ((8 * index) as u32)) & 0xff) as u8
}

/// The bytes that a sequence of words holds, the least significant byte of
/// each word first.
pub open spec fn bytes_of(words: Seq<u32>) -> Seq<u8> {
    Seq::new(4 * words.len(), |offset: int| le_byte(words[offset / 4], offset % 4))
}

/// The value of four bytes read as a little-endian 32-bit number.
pub open spec fn le_value(b0: u8, b1: u8, b2: u8, b3: u8) -> int {
    b0 + 256 * b1 + 65536 * b2 + 16777216 * b3
}

/// The value that the headers fix for the byte at a header offset.
pub open spec fn header_byte(offset: int) -> u8 {
    if field_of(offset) == 0 {
        (COLUMN_COUNT - 1) as u8
    } else if field_of(offset) == ROW_SELECT_OFFSET {
        row_of(offset) as u8
    } else {
        le_byte(tick_count(frame_of(offset)), field_of(offset) - BCD_TICKS_OFFSET)
    }
}

/// The bytes `bytes` with every header byte set to its fixed value.
pub open spec fn with_headers(bytes: Seq<u8>) -> Seq<u8> {
    Seq::new(
        bytes.len(),
        |offset: int|
            if is_header(offset) {
                header_byte(offset)
            } else {
                bytes[offset]
            },
    )
}

/// A whole buffer of zero bytes.
pub open spec fn zeroed() -> Seq<u8> {
    Seq::new(BITSTREAM_LENGTH as nat, |offset: int| 0u8)
}

/// Whether `bytes` is a whole scan buffer whose headers are in place.
pub open spec fn has_headers(bytes: Seq<u8>) -> bool {
    &&& bytes.len() == BITSTREAM_LENGTH
    &&& forall|offset: int|
        in_buffer(offset) && is_header(offset) ==> bytes[offset] == header_byte(offset)
}

/// The electrical column that shows the logical pixel `(x, y)`: the picture
/// is mirrored, and its lower half lies in the right half of a row.
pub open spec fn physical_column(x: int, y: int) -> int {
    if HEIGHT - 1 - y < ROW_COUNT {
        WIDTH - 1 - x + WIDTH
    } else {
        WIDTH - 1 - x
    }
}

/// The electrical row that shows the logical pixels of line `y`.
pub open spec fn physical_row(y: int) -> int {
    if HEIGHT - 1 - y < ROW_COUNT {
        HEIGHT - 1 - y
    } else {
        HEIGHT - 1 - y - ROW_COUNT
    }
}

/// The logical `x` of the pixel that an electrical column shows.
pub open spec fn logical_x(column: int) -> int {
    if column >= WIDTH {
        2 * WIDTH - 1 - column
    } else {
        WIDTH - 1 - column
    }
}

/// The logical `y` of the pixel that an electrical column of a row shows.
pub open spec fn logical_y(column: int, row: int) -> int {
    if column >= WIDTH {
        HEIGHT - 1 - row
    } else {
        HEIGHT - 1 - ROW_COUNT - row
    }
}

/// Bit `frame` of an intensity, as 0 or 1.
pub open spec fn intensity_bit(intensity: u16, frame: int) -> u16 {
    (intensity >> (frame as u16)) & 1
}

/// The byte of bit-plane `frame` for a pixel of the given corrected
/// intensities: the blue bit in bit 0, the green bit in bit 1, the red bit in
/// bit 2.
pub open spec fn plane_byte(red: u16, green: u16, blue: u16, frame: int) -> u8 {
    (intensity_bit(blue, frame) | (intensity_bit(green, frame) << 1) | (intensity_bit(red, frame)
        << 2)) as u8
}

/// Whether the byte at `offset` holds the pixel data of the given column of
/// the given row, in any bit-plane.
pub open spec fn is_cell(offset: int, column: int, row: int) -> bool {
    is_pixel_data(offset) && row_of(offset) == row && column_of(offset) == column
}

/// The bytes `bytes` after the fourteen plane bytes of one column of one row
/// have been written for a pixel of the given corrected intensities.
pub open spec fn with_cell(
    bytes: Seq<u8>,
    column: int,
    row: int,
    red: u16,
    green: u16,
    blue: u16,
) -> Seq<u8> {
    Seq::new(
        bytes.len(),
        |offset: int|
            if is_cell(offset, column, row) {
                plane_byte(red, green, blue, frame_of(offset))
            } else {
                bytes[offset]
            },
    )
}

/// The byte at `field` of a bit-plane lies in the buffer, and its offset
/// gives back the row, the bit-plane and the field.
pub proof fn lemma_plane_parts(row: int, frame: int, field: int)
    requires
        0 <= row < ROW_COUNT,
        0 <= frame < BCD_FRAME_COUNT,
        0 <= field < BCD_FRAME_BYTES,
    ensures
        in_buffer(plane_start(row, frame) + field),
        row_of(plane_start(row, frame) + field) == row,
        frame_of(plane_start(row, frame) + field) == frame,
        field_of(plane_start(row, frame) + field) == field,
{
}

/// Every offset of the buffer is a field of one bit-plane of one row.
pub proof fn lemma_offset_parts(offset: int)
    requires
        in_buffer(offset),
    ensures
        0 <= row_of(offset) < ROW_COUNT,
        0 <= frame_of(offset) < BCD_FRAME_COUNT,
        0 <= field_of(offset) < BCD_FRAME_BYTES,
        offset == plane_start(row_of(offset), frame_of(offset)) + field_of(offset),
{
}

/// The remap and its inverse undo each other on the logical side: the cell
/// that shows pixel `(x, y)` lies on the panel, and shows no other pixel.
pub proof fn lemma_remap_then_back(x: int, y: int)
    requires
        0 <= x < WIDTH,
        0 <= y < HEIGHT,
    ensures
        0 <= physical_column(x, y) < COLUMN_COUNT,
        0 <= physical_row(y) < ROW_COUNT,
        logical_x(physical_column(x, y)) == x,
        logical_y(physical_column(x, y), physical_row(y)) == y,
{
}

/// The remap and its inverse undo each other on the electrical side: every
/// cell of the panel shows one logical pixel, which the remap sends back to
/// that cell.
pub proof fn lemma_back_then_remap(column: int, row: int)
    requires
        0 <= column < COLUMN_COUNT,
        0 <= row < ROW_COUNT,
    ensures
        0 <= logical_x(column) < WIDTH,
        0 <= logical_y(column, row) < HEIGHT,
        physical_column(logical_x(column), logical_y(column, row)) == column,
        physical_row(logical_y(column, row)) == row,
{
}

/// Two logical pixels are never shown by the same cell.
pub proof fn lemma_remap_injective(x1: int, y1: int, x2: int, y2: int)
    requires
        0 <= x1 < WIDTH,
        0 <= y1 < HEIGHT,
        0 <= x2 < WIDTH,
        0 <= y2 < HEIGHT,
        physical_column(x1, y1) == physical_column(x2, y2),
        physical_row(y1) == physical_row(y2),
    ensures
        x1 == x2,
        y1 == y2,
{
    lemma_remap_then_back(x1, y1);
    lemma_remap_then_back(x2, y2);
}

/// A plane byte holds one bit of each channel and nothing else: the blue bit
/// counts 1, the green bit 2 and the red bit 4. So a pixel that is red alone
/// gives the byte 4 in the bit-planes where its corrected red has a one, and
/// the byte 0 in the others.
pub proof fn lemma_plane_byte_channels(red: u16, green: u16, blue: u16, frame: int)
    requires
        0 <= frame < BCD_FRAME_COUNT,
    ensures
        intensity_bit(red, frame) <= 1,
        intensity_bit(green, frame) <= 1,
        intensity_bit(blue, frame) <= 1,
        plane_byte(red, green, blue, frame) == intensity_bit(blue, frame) + 2 * intensity_bit(
            green,
            frame,
        ) + 4 * intensity_bit(red, frame),
        plane_byte(red, 0, 0, frame) == 4 * intensity_bit(red, frame),
{
    let shift = frame as u16;
    assert((red >> shift) & 1 <= 1) by (bit_vector);
    assert((green >> shift) & 1 <= 1) by (bit_vector);
    assert((blue >> shift) & 1 <= 1) by (bit_vector);
    assert((((blue >> shift) & 1) | (((green >> shift) & 1) << 1) | (((red >> shift) & 1) << 2))
        as u8 == ((blue >> shift) & 1) + 2 * ((green >> shift) & 1) + 4 * ((red >> shift) & 1))
        by (bit_vector);
    assert((((0u16 >> shift) & 1) | (((0u16 >> shift) & 1) << 1) | (((red >> shift) & 1) << 2))
        as u8 == 4 * ((red >> shift) & 1)) by (bit_vector);
}

/// After a cell has been written, its byte in each bit-plane is the plane
/// byte of the intensities written.
pub proof fn lemma_cell_written(
    bytes: Seq<u8>,
    column: int,
    row: int,
    red: u16,
    green: u16,
    blue: u16,
    frame: int,
)
    requires
        bytes.len() == BITSTREAM_LENGTH,
        0 <= column < COLUMN_COUNT,
        0 <= row < ROW_COUNT,
        0 <= frame < BCD_FRAME_COUNT,
    ensures
        in_buffer(cell_offset(row, frame, column)),
        with_cell(bytes, column, row, red, green, blue)[cell_offset(row, frame, column)]
            == plane_byte(red, green, blue, frame),
{
    lemma_plane_parts(row, frame, PIXEL_DATA_OFFSET + column);
}

/// Writing a cell keeps every byte outside the cell, and so the headers.
pub proof fn lemma_with_cell_keeps_headers(
    bytes: Seq<u8>,
    column: int,
    row: int,
    red: u16,
    green: u16,
    blue: u16,
)
    ensures
        with_cell(bytes, column, row, red, green, blue).len() == bytes.len(),
        forall|offset: int|
            0 <= offset < bytes.len() && !is_cell(offset, column, row) ==> with_cell(
                bytes,
                column,
                row,
                red,
                green,
                blue,
            )[offset] == bytes[offset],
        has_headers(bytes) ==> has_headers(with_cell(bytes, column, row, red, green, blue)),
{
}

/// Laying the headers twice is laying them once, and a buffer has its
/// headers in place just when laying them changes nothing.
pub proof fn lemma_with_headers_idempotent(bytes: Seq<u8>)
    ensures
        with_headers(with_headers(bytes)) == with_headers(bytes),
        bytes.len() == BITSTREAM_LENGTH ==> has_headers(with_headers(bytes)),
        has_headers(bytes) ==> with_headers(bytes) == bytes,
{
    assert(with_headers(with_headers(bytes)) =~= with_headers(bytes));
    if has_headers(bytes) {
        assert(with_headers(bytes) =~= bytes);
    }
}

/// Each word holds four bytes of the buffer, the first of them in its least
/// significant byte: word `index` is the little-endian reading of the bytes
/// `4 * index` to `4 * index + 3`.
pub proof fn lemma_word_of_bytes(words: Seq<u32>, index: int)
    requires
        0 <= index < words.len(),
    ensures
        bytes_of(words).len() == 4 * words.len(),
        le_value(
            bytes_of(words)[4 * index],
            bytes_of(words)[4 * index + 1],
            bytes_of(words)[4 * index + 2],
            bytes_of(words)[4 * index + 3],
        ) == words[index],
{
    let word = words[index];
    assert(((word >> 0) & 0xff) as u8 + 256 * (((word >> 8) & 0xff) as u8) + 65536 * (((word
        >> 16) & 0xff) as u8) + 16777216 * (((word >> 24) & 0xff) as u8) == word)
        by (bit_vector);
}

/// In a buffer whose headers are in place, every bit-plane starts with the
/// column count minus one and the index of its row, and its four tick bytes,
/// read as a little-endian number, give two to the plane's number.
pub proof fn lemma_header_fields(bytes: Seq<u8>, row: int, frame: int)
    requires
        has_headers(bytes),
        0 <= row < ROW_COUNT,
        0 <= frame < BCD_FRAME_COUNT,
    ensures
        bytes[plane_start(row, frame)] == COLUMN_COUNT - 1,
        bytes[plane_start(row, frame) + ROW_SELECT_OFFSET] == row,
        le_value(
            bytes[plane_start(row, frame) + BCD_TICKS_OFFSET],
            bytes[plane_start(row, frame) + BCD_TICKS_OFFSET + 1],
            bytes[plane_start(row, frame) + BCD_TICKS_OFFSET + 2],
            bytes[plane_start(row, frame) + BCD_TICKS_OFFSET + 3],
        ) == tick_count(frame),
        tick_count(frame) == pow2(frame as nat),
{
    let start = plane_start(row, frame);
    lemma_plane_parts(row, frame, 0);
    lemma_plane_parts(row, frame, 1);
    lemma_plane_parts(row, frame, 68);
    lemma_plane_parts(row, frame, 69);
    lemma_plane_parts(row, frame, 70);
    lemma_plane_parts(row, frame, 71);
    let ticks = tick_count(frame);
    assert(bytes[start + 68] == le_byte(ticks, 0));
    assert(bytes[start + 69] == le_byte(ticks, 1));
    assert(bytes[start + 70] == le_byte(ticks, 2));
    assert(bytes[start + 71] == le_byte(ticks, 3));
    assert(((ticks >> 0) & 0xff) as u8 + 256 * (((ticks >> 8) & 0xff) as u8) + 65536 * (((ticks
        >> 16) & 0xff) as u8) + 16777216 * (((ticks >> 24) & 0xff) as u8) == ticks)
        by (bit_vector);
    let shift = frame as u32;
    lemma2_to64();
    lemma_pow2_strictly_increases(frame as nat, 14);
    lemma_u32_shl_is_mul(1u32, shift);
}

/// One scan buffer.
pub struct BitStream(Buffer);

impl View for BitStream {
    type V = Seq<u8>;

    closed spec fn view(&self) -> Seq<u8> {
        bytes_of(self.0@)
    }
}

/// The electrical cell, as column and row, that shows the logical pixel
/// `(x, y)`.
pub fn remap(x: usize, y: usize) -> (cell: (usize, usize))
    requires
        x < WIDTH,
        y < HEIGHT,
    ensures
        cell.0 == physical_column(x as int, y as int),
        cell.1 == physical_row(y as int),
        cell.0 < COLUMN_COUNT,
        cell.1 < ROW_COUNT,
    no_unwind
{
    let mut column: usize = (WIDTH - 1) - x;
    let mut row: usize = (HEIGHT - 1) - y;
    if row < ROW_COUNT {
        column += WIDTH;
    } else {
        row -= ROW_COUNT;
    }
    (column, row)
}

impl BitStream {
    /// A scan buffer of zero bytes, without headers.
    pub fn new() -> (bitstream: BitStream)
        ensures
            bitstream@ == zeroed(),
    {
        let bitstream = BitStream([0u32; BITSTREAM_WORDS]);
        assert(bitstream@.len() == BITSTREAM_LENGTH);
        assert forall|offset: int| 0 <= offset < bitstream@.len() implies bitstream@[offset]
            == zeroed()[offset] by {
            let shift = (8 * (offset % 4)) as u32;
            assert((0u32 >> shift) & 0xff == 0) by (bit_vector);
        }
        assert(bitstream@ =~= zeroed());
        bitstream
    }

    /// The length of every scan buffer.
    pub proof fn lemma_len(&self)
        ensures
            self@.len() == BITSTREAM_LENGTH,
    {
    }

    /// The byte at `offset`.
    pub fn byte(&self, offset: usize) -> (value: u8)
        requires
            offset < BITSTREAM_LENGTH,
        ensures
            value == self@[offset as int],
    {
        let word: u32 = self.0[offset / 4];
        let shift: u32 = (8 * (offset % 4)) as u32;
        assert((word >> shift) & 0xff <= 0xff) by (bit_vector);
        ((word >> shift) & 0xff) as u8
    }

    /// Sets the byte at `offset`; no other byte changes.
    pub fn set_byte(&mut self, offset: usize, value: u8)
        requires
            offset < BITSTREAM_LENGTH,
        ensures
            final(self)@ == old(self)@.update(offset as int, value),
        no_unwind
    {
        let index: usize = offset / 4;
        let shift: u32 = (8 * (offset % 4)) as u32;
        let word: u32 = self.0[index];
        let changed: u32 = (word & !(0xffu32 << shift)) | ((value as u32) << shift);
        self.0[index] = changed;
        assert(self@.len() == BITSTREAM_LENGTH);
        assert(old(self)@.len() == BITSTREAM_LENGTH);
        let ghost updated = old(self)@.update(offset as int, value);
        assert forall|at: int| 0 <= at < self@.len() implies self@[at] == updated[at] by {
            let lane = (8 * (at % 4)) as u32;
            if at / 4 == index {
                assert(((((word & !(0xffu32 << shift)) | ((value as u32) << shift)) >> lane)
                    & 0xff) as u8 == if lane == shift {
                    value
                } else {
                    ((word >> lane) & 0xff) as u8
                }) by (bit_vector)
                    requires
                        shift == 0 || shift == 8 || shift == 16 || shift == 24,
                        lane == 0 || lane == 8 || lane == 16 || lane == 24,
                ;
            }
        }
        assert(self@ =~= updated);
    }

    /// Writes the six header bytes of one bit-plane.
    fn write_plane_header(&mut self, row: usize, frame: usize)
        requires
            row < ROW_COUNT,
            frame < BCD_FRAME_COUNT,
        ensures
            final(self)@.len() == BITSTREAM_LENGTH,
            forall|offset: int|
                in_buffer(offset) ==> final(self)@[offset] == if is_header(offset) && row_of(offset)
                    == row && frame_of(offset) == frame {
                    header_byte(offset)
                } else {
                    old(self)@[offset]
                },
        no_unwind
    {
        let offset: usize = row * ROW_BYTES + frame * BCD_FRAME_BYTES;
        let bcd_ticks: u32 = 1u32 << (frame as u32);
        assert(bcd_ticks & 0xff <= 0xff) by (bit_vector);
        assert((bcd_ticks >> 8) & 0xff <= 0xff) by (bit_vector);
        assert((bcd_ticks >> 16) & 0xff <= 0xff) by (bit_vector);
        assert((bcd_ticks >> 24) & 0xff <= 0xff) by (bit_vector);
        assert(bcd_ticks >> 0 == bcd_ticks) by (bit_vector);
        proof {
            lemma_plane_parts(row as int, frame as int, 0);
            lemma_plane_parts(row as int, frame as int, 1);
            lemma_plane_parts(row as int, frame as int, 68);
            lemma_plane_parts(row as int, frame as int, 69);
            lemma_plane_parts(row as int, frame as int, 70);
            lemma_plane_parts(row as int, frame as int, 71);
        }
        self.set_byte(offset, (COLUMN_COUNT - 1) as u8);
        self.set_byte(offset + ROW_SELECT_OFFSET, row as u8);
        self.set_byte(offset + BCD_TICKS_OFFSET, (bcd_ticks & 0xff) as u8);
        self.set_byte(offset + BCD_TICKS_OFFSET + 1, ((bcd_ticks >> 8) & 0xff) as u8);
        self.set_byte(offset + BCD_TICKS_OFFSET + 2, ((bcd_ticks >> 16) & 0xff) as u8);
        self.set_byte(offset + BCD_TICKS_OFFSET + 3, ((bcd_ticks >> 24) & 0xff) as u8);
        assert forall|at: int| in_buffer(at) implies self@[at] == if is_header(at) && row_of(at)
            == row && frame_of(at) == frame {
            header_byte(at)
        } else {
            old(self)@[at]
        } by {
            lemma_offset_parts(at);
        }
    }

    /// Writes the headers of all sixteen rows and fourteen bit-planes: the
    /// column count, the row-select index and the tick count. Every other
    /// byte is kept, so a second run changes nothing.
    pub fn init_bitstream(&mut self)
        ensures
            final(self)@ == with_headers(old(self)@),
            has_headers(final(self)@),
        no_unwind
    {
        let mut row: usize = 0;
        while row < ROW_COUNT
            invariant
                row <= ROW_COUNT,
                self@.len() == BITSTREAM_LENGTH,
                forall|offset: int|
                    in_buffer(offset) ==> self@[offset] == if is_header(offset) && row_of(offset)
                        < row {
                        header_byte(offset)
                    } else {
                        old(self)@[offset]
                    },
            decreases ROW_COUNT - row,
        {
            let mut frame: usize = 0;
            while frame < BCD_FRAME_COUNT
                invariant
                    row < ROW_COUNT,
                    frame <= BCD_FRAME_COUNT,
                    self@.len() == BITSTREAM_LENGTH,
                    forall|offset: int|
                        in_buffer(offset) ==> self@[offset] == if is_header(offset) && (row_of(
                            offset,
                        ) < row || (row_of(offset) == row && frame_of(offset) < frame)) {
                            header_byte(offset)
                        } else {
                            old(self)@[offset]
                        },
                decreases BCD_FRAME_COUNT - frame,
            {
                self.write_plane_header(row, frame);
                frame += 1;
            }
            assert forall|offset: int| in_buffer(offset) implies frame_of(offset)
                < BCD_FRAME_COUNT by {
                lemma_offset_parts(offset);
            }
            row += 1;
        }
        assert forall|offset: int| in_buffer(offset) implies row_of(offset) < ROW_COUNT by {
            lemma_offset_parts(offset);
        }
        assert(self@ =~= with_headers(old(self)@));
    }

    /// Writes, for one column of one row, the byte of each of the fourteen
    /// bit-planes, from corrected intensities. Bits above the fourteenth of an
    /// intensity are not shown. No other byte changes.
    pub fn write_cell(&mut self, column: usize, row: usize, red: u16, green: u16, blue: u16)
        requires
            column < COLUMN_COUNT,
            row < ROW_COUNT,
        ensures
            final(self)@ == with_cell(old(self)@, column as int, row as int, red, green, blue),
        no_unwind
    {
        let base_offset: usize = row * ROW_BYTES + PIXEL_DATA_OFFSET + column;
        let mut frame: usize = 0;
        while frame < BCD_FRAME_COUNT
            invariant
                column < COLUMN_COUNT,
                row < ROW_COUNT,
                base_offset == row * ROW_BYTES + PIXEL_DATA_OFFSET + column,
                frame <= BCD_FRAME_COUNT,
                self@.len() == BITSTREAM_LENGTH,
                forall|offset: int|
                    in_buffer(offset) ==> self@[offset] == if is_cell(
                        offset,
                        column as int,
                        row as int,
                    ) && frame_of(offset) < frame {
                        plane_byte(red, green, blue, frame_of(offset))
                    } else {
                        old(self)@[offset]
                    },
            decreases BCD_FRAME_COUNT - frame,
        {
            let offset: usize = base_offset + BCD_FRAME_BYTES * frame;
            let shift: u16 = frame as u16;
            let red_bit: u16 = (red >> shift) & 1;
            let green_bit: u16 = (green >> shift) & 1;
            let blue_bit: u16 = (blue >> shift) & 1;
            let pixel: u16 = blue_bit | (green_bit << 1) | (red_bit << 2);
            assert(pixel <= 7) by (bit_vector)
                requires
                    pixel == ((blue >> shift) & 1) | (((green >> shift) & 1) << 1) | (((red
                        >> shift) & 1) << 2),
            ;
            proof {
                lemma_plane_parts(row as int, frame as int, PIXEL_DATA_OFFSET + column);
            }
            self.set_byte(offset, pixel as u8);
            assert forall|at: int| in_buffer(at) implies self@[at] == if is_cell(
                at,
                column as int,
                row as int,
            ) && frame_of(at) < frame + 1 {
                plane_byte(red, green, blue, frame_of(at))
            } else {
                old(self)@[at]
            } by {
                lemma_offset_parts(at);
            }
            frame += 1;
        }
        assert(old(self)@.len() == BITSTREAM_LENGTH);
        let ghost written = with_cell(old(self)@, column as int, row as int, red, green, blue);
        assert forall|at: int| 0 <= at < self@.len() implies self@[at] == written[at] by {
            assert(in_buffer(at));
            lemma_offset_parts(at);
        }
        assert(self@ =~= written);
    }

    /// Writes the logical pixel `(x, y)`: its channels are gamma-corrected and
    /// written, plane by plane, to the cell that shows the pixel. No other
    /// byte changes.
    pub fn encode_pixel(&mut self, x: usize, y: usize, r: u8, g: u8, b: u8)
        requires
            x < WIDTH,
            y < HEIGHT,
        ensures
            final(self)@ == with_cell(
                old(self)@,
                physical_column(x as int, y as int),
                physical_row(y as int),
                corrected(r),
                corrected(g),
                corrected(b),
            ),
        no_unwind
    {
        let (column, row) = remap(x, y);
        self.write_cell(column, row, correct(r), correct(g), correct(b));
    }

    /// Makes this buffer a copy of `source`, byte for byte.
    pub fn copy_from(&mut self, source: &BitStream)
        ensures
            final(self)@ == source@,
        no_unwind
    {
        self.0 = source.0;
    }

    /// The words of the buffer, to be read in place: what a transfer engine
    /// sends, word by word.
    pub fn words(&self) -> (buffer: &Buffer)
        ensures
            bytes_of(buffer@) == self@,
    {
        &self.0
    }

    /// The words of the buffer, open to any change.
    pub fn get_mut(&mut self) -> (buffer: &mut Buffer)
        ensures
            bytes_of(buffer@) == old(self)@,
            final(self)@ == bytes_of(final(buffer)@),
    {
        &mut self.0
    }

    /// A copy of the words of the buffer.
    pub fn get(&self) -> (buffer: Buffer)
        ensures
            bytes_of(buffer@) == self@,
    {
        self.0
    }

    /// A copy of the buffer, byte by byte.
    pub fn to_bytes(&self) -> (bytes: ByteBuffer)
        ensures
            bytes@ == self@,
    {
        let mut bytes: ByteBuffer = [0u8; BITSTREAM_LENGTH];
        let mut offset: usize = 0;
        while offset < BITSTREAM_LENGTH
            invariant
                offset <= BITSTREAM_LENGTH,
                forall|at: int| 0 <= at < offset ==> bytes@[at] == self@[at],
            decreases BITSTREAM_LENGTH - offset,
        {
            bytes[offset] = self.byte(offset);
            offset += 1;
        }
        assert(bytes@ =~= self@);
        bytes
    }
}

} // verus!
