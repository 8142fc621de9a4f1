//! The frame encoder: a whole picture written into a scan buffer.

use crate::bitstream::{
    column_of, frame_of, has_headers, in_buffer, is_pixel_data, lemma_back_then_remap,
    lemma_offset_parts, logical_x, logical_y, plane_byte, row_of, BitStream,
};
use crate::constants::{BITSTREAM_LENGTH, HEIGHT, PIXEL_COUNT, WIDTH};
use crate::framebuffer::{FrameBuffer, RawBuffer};
use crate::gamma::corrected;
use crate::pixel::{blue_of, green_of, red_of, unpack_rgb};
use vstd::prelude::*;

verus! {

/// The place of the logical pixel `(x, y)` in a picture.
pub open spec fn pixel_index(x: int, y: int) -> int {
    y * WIDTH + x
}

/// The place, in a picture, of the pixel that the pixel-data byte at
/// `offset` shows.
pub open spec fn shown_index(offset: int) -> int {
    pixel_index(logical_x(column_of(offset)), logical_y(column_of(offset), row_of(offset)))
}

/// The value of the pixel-data byte at `offset` in a buffer that shows the
/// picture `raw`: the bits, for the byte's bit-plane, of the corrected
/// channels of the pixel that the byte's cell shows.
pub open spec fn pixel_byte(raw: Seq<u32>, offset: int) -> u8 {
    let word = raw[shown_index(offset)];
    plane_byte(
        corrected(red_of(word)),
        corrected(green_of(word)),
        corrected(blue_of(word)),
        frame_of(offset),
    )
}

/// The bytes `prior` after the picture `raw` has been encoded into them:
/// every pixel-data byte is that of the picture, every other byte is kept.
pub open spec fn encoded(prior: Seq<u8>, raw: Seq<u32>) -> Seq<u8> {
    Seq::new(
        prior.len(),
        |offset: int|
            if is_pixel_data(offset) {
                pixel_byte(raw, offset)
            } else {
                prior[offset]
            },
    )
}

/// Encoding keeps every byte that is not pixel data, and so the headers: a
/// buffer whose headers are in place still has them after any picture has
/// been encoded into it.
pub proof fn lemma_encoded_keeps_headers(prior: Seq<u8>, raw: Seq<u32>)
    ensures
        encoded(prior, raw).len() == prior.len(),
        forall|offset: int|
            0 <= offset < prior.len() && !is_pixel_data(offset) ==> encoded(prior, raw)[offset]
                == prior[offset],
        has_headers(prior) ==> has_headers(encoded(prior, raw)),
{
}

/// What is encoded does not depend on what the buffer showed before: every
/// pixel-data byte is that of the picture alone.
pub proof fn lemma_encoded_shows_picture(prior: Seq<u8>, raw: Seq<u32>)
    ensures
        forall|offset: int|
            0 <= offset < prior.len() && is_pixel_data(offset) ==> encoded(prior, raw)[offset]
                == pixel_byte(raw, offset),
{
}

/// The pixel-data bytes of a picture whose pixels are all dark are zero, in
/// every bit-plane of every row.
pub proof fn lemma_dark_picture(raw: Seq<u32>, offset: int)
    requires
        raw.len() == PIXEL_COUNT,
        forall|i: int|
            0 <= i < raw.len() ==> red_of(raw[i]) == 0 && green_of(raw[i]) == 0 && blue_of(raw[i])
                == 0,
        in_buffer(offset),
        is_pixel_data(offset),
    ensures
        pixel_byte(raw, offset) == 0,
{
    lemma_offset_parts(offset);
    lemma_back_then_remap(column_of(offset), row_of(offset));
    let shift = frame_of(offset) as u16;
    assert((((0u16 >> shift) & 1) | (((0u16 >> shift) & 1) << 1) | (((0u16 >> shift) & 1) << 2))
        as u8 == 0) by (bit_vector);
}

/// Encodes a picture into a scan buffer: the picture is taken as packed
/// words and encoded by `encode_words`.
pub fn encode<B: FrameBuffer>(framebuffer: &B, target: &mut BitStream)
    ensures
        final(target)@ == encoded(old(target)@, framebuffer.packed()),
{
    let rawbuf: RawBuffer = framebuffer.as_bytes();
    encode_words(&rawbuf, target);
}

/// Encodes a picture, given as packed words, into a scan buffer: each of the
/// 1024 pixels is unpacked, gamma-corrected and written to the cell that
/// shows it. The headers and the padding of the buffer are kept.
pub fn encode_words(rawbuf: &RawBuffer, target: &mut BitStream)
    ensures
        final(target)@ == encoded(old(target)@, rawbuf@),
    no_unwind
{
    proof {
        target.lemma_len();
    }
    let mut offset: usize = 0;
    let mut y: usize = 0;
    while y < HEIGHT
        invariant
            y <= HEIGHT,
            offset == y * WIDTH,
            target@.len() == BITSTREAM_LENGTH,
            old(target)@.len() == BITSTREAM_LENGTH,
            forall|at: int|
                in_buffer(at) ==> target@[at] == if is_pixel_data(at) && shown_index(at) < offset {
                    pixel_byte(rawbuf@, at)
                } else {
                    old(target)@[at]
                },
        decreases HEIGHT - y,
    {
        let mut x: usize = 0;
        while x < WIDTH
            invariant
                y < HEIGHT,
                x <= WIDTH,
                offset == y * WIDTH + x,
                target@.len() == BITSTREAM_LENGTH,
                old(target)@.len() == BITSTREAM_LENGTH,
                forall|at: int|
                    in_buffer(at) ==> target@[at] == if is_pixel_data(at) && shown_index(at)
                        < offset {
                        pixel_byte(rawbuf@, at)
                    } else {
                        old(target)@[at]
                    },
            decreases WIDTH - x,
        {
            let col: u32 = rawbuf[offset];
            let (r, g, b) = unpack_rgb(col);
            target.encode_pixel(x, y, r, g, b);
            assert forall|at: int| in_buffer(at) implies target@[at] == if is_pixel_data(at)
                && shown_index(at) < offset + 1 {
                pixel_byte(rawbuf@, at)
            } else {
                old(target)@[at]
            } by {
                lemma_offset_parts(at);
            }
            offset += 1;
            x += 1;
        }
        y += 1;
    }
    assert forall|at: int| 0 <= at < target@.len() implies target@[at] == encoded(
        old(target)@,
        rawbuf@,
    )[at] by {
        assert(in_buffer(at));
        lemma_offset_parts(at);
    }
    assert(target@ =~= encoded(old(target)@, rawbuf@));
}

} // verus!
