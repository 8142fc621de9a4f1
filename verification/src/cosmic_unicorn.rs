//! The matrix driver: the panel as its user sees it.

use crate::bitstream::{has_headers, in_buffer, is_pixel_data, with_headers, zeroed, BitStream};
use crate::constants::{HEIGHT, PIXEL_COUNT, WIDTH};
use crate::encoder::{lemma_dark_picture, pixel_byte};
use crate::framebuffer::{packed_pixels, FrameBuffer, RawBuffer};
use crate::pipeline::{Pipeline, PipelineView, Slot};
use crate::pixel::{Pixel, RGB};
use vstd::prelude::*;

verus! {

/// The picture whose pixels are all dark.
pub open spec fn dark_picture() -> Seq<u32> {
    Seq::new(PIXEL_COUNT as nat, |i: int| 0u32)
}

/// The driver of one panel. It owns the streaming pipeline and its two scan
/// buffers for as long as it lives.
pub struct CosmicUnicorn {
    pipeline: Pipeline,
}

impl View for CosmicUnicorn {
    type V = PipelineView;

    closed spec fn view(&self) -> PipelineView {
        self.pipeline@
    }
}

impl CosmicUnicorn {
    /// A driver whose two buffers are dark and have their headers in place.
    /// Slot `A` is live.
    pub fn new() -> (unicorn: CosmicUnicorn)
        ensures
            unicorn@.live == Slot::A,
            unicorn@.buffer_a == with_headers(zeroed()),
            unicorn@.buffer_b == with_headers(zeroed()),
            unicorn@.well_formed(),
    {
        let pipeline = Pipeline::start(BitStream::new(), BitStream::new());
        CosmicUnicorn { pipeline }
    }

    /// The slot that is being shown.
    pub fn live(&self) -> (slot: Slot)
        ensures
            slot == self@.live,
            self@.well_formed(),
    {
        self.pipeline.live()
    }

    /// The buffer that is being shown.
    pub fn live_buffer(&self) -> (bitstream: &BitStream)
        ensures
            bitstream@ == self@.live_bytes(),
            has_headers(bitstream@),
            self@.well_formed(),
    {
        self.pipeline.live_buffer()
    }

    /// Replaces one pixel of the picture on show, in one step: the picture is
    /// never shown half changed.
    pub fn set_pixel<P: RGB>(&mut self, x: usize, y: usize, pixel: P)
        requires
            x < WIDTH,
            y < HEIGHT,
        ensures
            final(self)@ == old(self)@.after_retouch(
                x as int,
                y as int,
                pixel.channels().0,
                pixel.channels().1,
                pixel.channels().2,
            ),
            old(self)@.well_formed(),
            final(self)@.well_formed(),
    {
        let rgb: [u8; 3] = pixel.to_rgb();
        self.pipeline.retouch(x, y, rgb[0], rgb[1], rgb[2]);
    }

    /// Shows a picture: encodes it into the write target and makes that
    /// buffer live. The buffer that was live is unchanged and becomes the
    /// write target.
    pub fn update<B: FrameBuffer>(&mut self, buffer: &B)
        ensures
            final(self)@ == old(self)@.after_update(buffer.packed()),
            old(self)@.well_formed(),
            final(self)@.well_formed(),
    {
        let rawbuf: RawBuffer = buffer.as_bytes();
        let target: Slot = self.pipeline.next_write_target();
        let _ = self.pipeline.encode_into(target, &rawbuf);
        let _ = self.pipeline.submit(target);
    }

    /// Shows the dark picture: one update with every pixel at zero.
    pub fn clear(&mut self)
        ensures
            final(self)@ == old(self)@.after_update(dark_picture()),
            old(self)@.well_formed(),
            final(self)@.well_formed(),
            forall|offset: int|
                in_buffer(offset) && is_pixel_data(offset) ==> final(self)@.live_bytes()[offset]
                    == 0,
    {
        let dark: [Pixel; PIXEL_COUNT] = [Pixel::black(); PIXEL_COUNT];
        proof {
            assert(0u32 == ((0u8 as u32) << 16) | ((0u8 as u32) << 8) | (0u8 as u32))
                by (bit_vector);
            assert(packed_pixels(dark@) =~= dark_picture());
            assert((0u32 & 0xff0000) >> 16 == 0 && (0u32 & 0x00ff00) >> 8 == 0 && 0u32 & 0x0000ff
                == 0) by (bit_vector);
            assert forall|offset: int|
                in_buffer(offset) && is_pixel_data(offset) implies pixel_byte(
                dark_picture(),
                offset,
            ) == 0 by {
                lemma_dark_picture(dark_picture(), offset);
            }
        }
        self.update(&dark);
    }
}

} // verus!
