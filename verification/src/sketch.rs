//! A small demonstration: the whole panel in one colour, which changes from
//! red to green to blue every thirty updates.

use crate::constants::PIXEL_COUNT;
use crate::framebuffer::{channels_of, pack_pixels, packed_channels, FrameBuffer, RawBuffer};
use crate::pixel::Pixel;
use vstd::prelude::*;

verus! {

/// The number of updates for which one colour is shown.
pub const INTERVAL: u32 = 30;

/// The number of colours that the sketch goes through.
pub const COLOR_COUNT: u8 = 3;

/// The channels of the colour at `index` of the cycle: red, green, blue, each
/// strong in one channel and faint in the two others.
pub open spec fn color_channels(index: u8) -> (u8, u8, u8) {
    if index == 0 {
        (255, 1, 1)
    } else if index == 1 {
        (1, 255, 1)
    } else {
        (1, 1, 255)
    }
}

/// The colour at `index` of the cycle.
pub fn color(index: u8) -> (pixel: Pixel)
    ensures
        pixel@ == color_channels(index),
{
    if index == 0 {
        Pixel::new(255, 1, 1)
    } else if index == 1 {
        Pixel::new(1, 255, 1)
    } else {
        Pixel::new(1, 1, 255)
    }
}

/// What a sketch holds.
pub struct SketchView {
    /// The channels of each pixel of the picture, row by row.
    pub pixels: Seq<(u8, u8, u8)>,
    /// The number of updates so far, which wraps.
    pub timer: u32,
    /// The place in the cycle of the colour to show next.
    pub color_index: u8,
}

impl SketchView {
    /// Whether this update repaints the panel: every thirtieth does.
    pub open spec fn due(self) -> bool {
        self.timer % INTERVAL == 0
    }

    /// The state after one update.
    pub open spec fn after_update(self) -> SketchView {
        SketchView {
            pixels: if self.due() {
                Seq::new(PIXEL_COUNT as nat, |i: int| color_channels(self.color_index))
            } else {
                self.pixels
            },
            timer: if self.timer == u32::MAX {
                0
            } else {
                (self.timer + 1) as u32
            },
            color_index: if self.due() {
                ((self.color_index + 1) % (COLOR_COUNT as int)) as u8
            } else {
                self.color_index
            },
        }
    }
}

/// The demonstration: a picture, a count of updates and a place in the cycle
/// of colours.
pub struct Sketch {
    buffer: [Pixel; PIXEL_COUNT],
    timer: u32,
    color_index: u8,
}

impl View for Sketch {
    type V = SketchView;

    closed spec fn view(&self) -> SketchView {
        SketchView {
            pixels: channels_of(self.buffer@),
            timer: self.timer,
            color_index: self.color_index,
        }
    }
}

impl Sketch {
    #[verifier::type_invariant]
    spec fn in_cycle(self) -> bool {
        self.color_index < COLOR_COUNT
    }

    /// A dark picture, no update yet, and red as the first colour to show.
    pub fn new() -> (sketch: Sketch)
        ensures
            sketch@.pixels.len() == PIXEL_COUNT,
            forall|i: int| 0 <= i < PIXEL_COUNT ==> sketch@.pixels[i] == (0u8, 0u8, 0u8),
            sketch@.timer == 0,
            sketch@.color_index == 0,
    {
        Sketch { buffer: [Pixel::black(); PIXEL_COUNT], timer: 0, color_index: 0 }
    }

    /// One step of the demonstration: on every thirtieth update the whole
    /// picture takes the next colour of the cycle; the count of updates goes
    /// up by one, and wraps.
    pub fn update(&mut self)
        ensures
            final(self)@ == old(self)@.after_update(),
            final(self)@.color_index < COLOR_COUNT,
    {
        proof {
            use_type_invariant(&*self);
        }
        if self.timer % INTERVAL == 0 {
            let paint: Pixel = color(self.color_index);
            let mut index: usize = 0;
            while index < PIXEL_COUNT
                invariant
                    index <= PIXEL_COUNT,
                    self.timer == old(self).timer,
                    self.color_index == old(self).color_index,
                    self.color_index < COLOR_COUNT,
                    paint@ == color_channels(self.color_index),
                    forall|i: int| 0 <= i < index ==> self.buffer@[i] == paint,
                decreases PIXEL_COUNT - index,
            {
                self.buffer[index] = paint;
                index += 1;
            }
            self.color_index = (self.color_index + 1) % COLOR_COUNT;
            assert(channels_of(self.buffer@) =~= Seq::new(
                PIXEL_COUNT as nat,
                |i: int| color_channels(old(self).color_index),
            ));
        }
        self.timer = self.timer.wrapping_add(1);
    }
}

impl FrameBuffer for Sketch {
    open spec fn packed(&self) -> Seq<u32> {
        packed_channels(self@.pixels)
    }

    fn as_bytes(&self) -> (raw: RawBuffer) {
        pack_pixels(&self.buffer)
    }
}

} // verus!
