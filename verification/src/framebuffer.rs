//! A picture to be shown: 32 by 32 pixels in row-major order.

use crate::constants::PIXEL_COUNT;
use crate::pixel::{pack_rgb, Pixel, RGB};
use vstd::prelude::*;

verus! {

/// A picture as packed words, one for each pixel, row by row.
pub type RawBuffer = [u32; PIXEL_COUNT];

/// A source of pictures for the panel.
pub trait FrameBuffer {
    /// The picture as a sequence of packed colours, row by row: the pixel
    /// `(x, y)` stands at index `y * 32 + x`.
    spec fn packed(&self) -> Seq<u32>;

    /// The picture as packed words.
    fn as_bytes(&self) -> (raw: RawBuffer)
        ensures
            raw@ == self.packed(),
    ;
}

/// The channels of each pixel of a sequence.
pub open spec fn channels_of(pixels: Seq<Pixel>) -> Seq<(u8, u8, u8)> {
    Seq::new(pixels.len(), |i: int| pixels[i]@)
}

/// The packed colours of a sequence of channel triples.
pub open spec fn packed_channels(channels: Seq<(u8, u8, u8)>) -> Seq<u32> {
    Seq::new(channels.len(), |i: int| pack_rgb(channels[i].0, channels[i].1, channels[i].2))
}

/// The packed colours of a sequence of pixels.
pub open spec fn packed_pixels(pixels: Seq<Pixel>) -> Seq<u32> {
    packed_channels(channels_of(pixels))
}

/// The packed words of an array of pixels.
pub fn pack_pixels(pixels: &[Pixel; PIXEL_COUNT]) -> (raw: RawBuffer)
    ensures
        raw@ == packed_pixels(pixels@),
{
    let mut raw: RawBuffer = [0u32; PIXEL_COUNT];
    let mut index: usize = 0;
    while index < PIXEL_COUNT
        invariant
            index <= PIXEL_COUNT,
            forall|i: int| 0 <= i < index ==> raw@[i] == packed_pixels(pixels@)[i],
        decreases PIXEL_COUNT - index,
    {
        raw[index] = pixels[index].to_rgb_packed();
        index += 1;
    }
    assert(raw@ =~= packed_pixels(pixels@));
    raw
}

impl FrameBuffer for [Pixel; PIXEL_COUNT] {
    open spec fn packed(&self) -> Seq<u32> {
        packed_pixels(self@)
    }

    fn as_bytes(&self) -> (raw: RawBuffer) {
        pack_pixels(self)
    }
}

} // verus!
