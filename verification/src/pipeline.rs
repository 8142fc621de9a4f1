//! The streaming pipeline: two scan buffers, of which one is live, read by
//! the transfer loop over and over, while the other waits to be filled.
//!
//! The pipeline owns both buffers. A buffer is named by its slot. The slot
//! that `next_write_target` gives is the only one that can be written, and
//! `submit` makes it live in one step: there is no state in which a buffer is
//! both written and shown.
//!
//! A pipeline comes into being with `start`: while nothing is streamed there
//! is no pipeline, and so no request that an idle one would have to refuse.
//! From then on it streams, with one slot or the other live, for as long as
//! it exists.

use crate::bitstream::{
    has_headers, in_buffer, is_pixel_data, lemma_with_cell_keeps_headers, physical_column,
    physical_row, with_cell, with_headers, BitStream,
};
use crate::constants::{HEIGHT, WIDTH};
use crate::encoder::{encode_words, encoded, lemma_encoded_keeps_headers, pixel_byte};
use crate::framebuffer::RawBuffer;
use crate::gamma::corrected;
use vstd::prelude::*;

verus! {

/// The name of one of the two buffers of a pipeline.
#[derive(Clone, Copy, Debug, PartialEq, Eq, Structural)]
pub enum Slot {
    /// The buffer that is live when streaming starts.
    A,
    /// The buffer that is the first write target.
    B,
}

impl Slot {
    /// The other of the two slots.
    pub open spec fn spec_other(self) -> Slot {
        match self {
            Slot::A => Slot::B,
            Slot::B => Slot::A,
        }
    }

    /// The other of the two slots.
    #[verifier::when_used_as_spec(spec_other)]
    pub fn other(self) -> (slot: Slot)
        ensures
            slot == self.spec_other(),
    {
        match self {
            Slot::A => Slot::B,
            Slot::B => Slot::A,
        }
    }
}

/// Why the pipeline refused a request.
#[derive(Clone, Copy, Debug, PartialEq, Eq, Structural)]
pub enum PipelineError {
    /// The slot named is the live one: it is being shown, and can neither be
    /// written nor submitted.
    BufferIsLive,
}

/// What a pipeline holds: which slot is live, and the bytes of both buffers.
pub struct PipelineView {
    /// The slot that is being shown.
    pub live: Slot,
    /// The bytes of the buffer of slot `A`.
    pub buffer_a: Seq<u8>,
    /// The bytes of the buffer of slot `B`.
    pub buffer_b: Seq<u8>,
}

impl PipelineView {
    /// The bytes of the buffer of a slot.
    pub open spec fn bytes(self, slot: Slot) -> Seq<u8> {
        match slot {
            Slot::A => self.buffer_a,
            Slot::B => self.buffer_b,
        }
    }

    /// The bytes that are being shown.
    pub open spec fn live_bytes(self) -> Seq<u8> {
        self.bytes(self.live)
    }

    /// The slot that can be written: the one that is not live.
    pub open spec fn write_target(self) -> Slot {
        self.live.spec_other()
    }

    /// The bytes of the buffer that can be written.
    pub open spec fn target_bytes(self) -> Seq<u8> {
        self.bytes(self.write_target())
    }

    /// Both buffers are whole and have their headers in place.
    pub open spec fn well_formed(self) -> bool {
        has_headers(self.buffer_a) && has_headers(self.buffer_b)
    }

    /// This state with the bytes of one slot replaced.
    pub open spec fn with_bytes(self, slot: Slot, bytes: Seq<u8>) -> PipelineView {
        match slot {
            Slot::A => PipelineView { buffer_a: bytes, ..self },
            Slot::B => PipelineView { buffer_b: bytes, ..self },
        }
    }

    /// This state with another slot live.
    pub open spec fn with_live(self, slot: Slot) -> PipelineView {
        PipelineView { live: slot, ..self }
    }

    /// The state after a request to encode the picture `raw` into `target`:
    /// unchanged where `target` is live, else with the picture encoded into
    /// the buffer of `target`.
    pub open spec fn after_encode(self, target: Slot, raw: Seq<u32>) -> PipelineView {
        if target == self.live {
            self
        } else {
            self.with_bytes(target, encoded(self.bytes(target), raw))
        }
    }

    /// The state after a request to submit `slot`: unchanged where `slot` is
    /// live, else with `slot` live.
    pub open spec fn after_submit(self, slot: Slot) -> PipelineView {
        if slot == self.live {
            self
        } else {
            self.with_live(slot)
        }
    }

    /// The state after an update with the picture `raw`: the picture is
    /// encoded into the write target, which is then live.
    pub open spec fn after_update(self, raw: Seq<u32>) -> PipelineView {
        self.after_encode(self.write_target(), raw).after_submit(self.write_target())
    }

    /// The state after one pixel of the picture on show has been replaced:
    /// the write target holds the live bytes with that pixel's cell
    /// rewritten, and is live.
    pub open spec fn after_retouch(self, x: int, y: int, r: u8, g: u8, b: u8) -> PipelineView {
        self.with_bytes(
            self.write_target(),
            with_cell(
                self.live_bytes(),
                physical_column(x, y),
                physical_row(y),
                corrected(r),
                corrected(g),
                corrected(b),
            ),
        ).with_live(self.write_target())
    }
}

/// Whether a request was accepted: refused where it names the live slot.
pub open spec fn verdict(live: Slot, slot: Slot) -> Result<(), PipelineError> {
    if slot == live {
        Err(PipelineError::BufferIsLive)
    } else {
        Ok(())
    }
}

/// After a submit, accepted or refused, the next write target is never the
/// slot that was submitted.
pub proof fn lemma_submitted_is_not_next_target(before: PipelineView, slot: Slot)
    ensures
        before.after_submit(slot).write_target() != slot,
        slot != before.live ==> before.after_submit(slot).write_target() == before.live,
{
}

/// Exactly one of the two slots is live and the other is the write target,
/// in every state.
pub proof fn lemma_one_live_one_target(state: PipelineView, slot: Slot)
    ensures
        (slot == state.live) != (slot == state.write_target()),
{
}

/// Encoding a picture into the write target and submitting it leaves the
/// live buffer whole: its headers are in place, and every one of its
/// pixel-data bytes is that of the picture. The buffer that was live is
/// unchanged and becomes the write target.
pub proof fn lemma_encode_then_submit(before: PipelineView, raw: Seq<u32>)
    requires
        before.well_formed(),
    ensures
        ({
            let target = before.write_target();
            let after = before.after_encode(target, raw).after_submit(target);
            &&& after.well_formed()
            &&& after.live == target
            &&& after.write_target() == before.live
            &&& after.target_bytes() == before.live_bytes()
            &&& after.live_bytes() == encoded(before.target_bytes(), raw)
            &&& forall|offset: int|
                in_buffer(offset) && is_pixel_data(offset) ==> after.live_bytes()[offset]
                    == pixel_byte(raw, offset)
        }),
{
    lemma_encoded_keeps_headers(before.target_bytes(), raw);
}

/// Two updates in a row, with the picture `first` and then with `second`,
/// leave the buffer that was live at the start live again. It shows `second`
/// whole: every pixel-data byte is that of `second`, none that of `first`.
/// The write target still holds `first` whole, and the headers of both
/// buffers are in place.
pub proof fn lemma_two_updates(before: PipelineView, first: Seq<u32>, second: Seq<u32>)
    requires
        before.well_formed(),
    ensures
        ({
            let between = before.after_update(first);
            let after = between.after_update(second);
            &&& between.well_formed()
            &&& between.live == before.write_target()
            &&& between.live_bytes() == encoded(before.target_bytes(), first)
            &&& after.well_formed()
            &&& after.live == before.live
            &&& after.live_bytes() == encoded(before.live_bytes(), second)
            &&& after.target_bytes() == between.live_bytes()
            &&& forall|offset: int|
                in_buffer(offset) && is_pixel_data(offset) ==> after.live_bytes()[offset]
                    == pixel_byte(second, offset) && after.target_bytes()[offset] == pixel_byte(
                    first,
                    offset,
                )
        }),
{
    lemma_encode_then_submit(before, first);
    lemma_encode_then_submit(before.after_update(first), second);
}

/// Two scan buffers and the knowledge of which of them is live.
pub struct Pipeline {
    buffer_a: BitStream,
    buffer_b: BitStream,
    live: Slot,
}

impl View for Pipeline {
    type V = PipelineView;

    closed spec fn view(&self) -> PipelineView {
        PipelineView { live: self.live, buffer_a: self.buffer_a@, buffer_b: self.buffer_b@ }
    }
}

impl Pipeline {
    #[verifier::type_invariant]
    spec fn headers_in_place(self) -> bool {
        has_headers(self.buffer_a@) && has_headers(self.buffer_b@)
    }

    /// Starts streaming: lays the headers of both buffers, makes `buffer_a`
    /// live and keeps `buffer_b` as the first write target.
    pub fn start(buffer_a: BitStream, buffer_b: BitStream) -> (pipeline: Pipeline)
        ensures
            pipeline@.live == Slot::A,
            pipeline@.buffer_a == with_headers(buffer_a@),
            pipeline@.buffer_b == with_headers(buffer_b@),
            pipeline@.well_formed(),
    {
        let mut buffer_a = buffer_a;
        let mut buffer_b = buffer_b;
        buffer_a.init_bitstream();
        buffer_b.init_bitstream();
        Pipeline { buffer_a, buffer_b, live: Slot::A }
    }

    /// The slot that is being shown.
    pub fn live(&self) -> (slot: Slot)
        ensures
            slot == self@.live,
            self@.well_formed(),
    {
        proof {
            use_type_invariant(self);
        }
        self.live
    }

    /// The slot to fill with the next picture: the one that is not live.
    pub fn next_write_target(&self) -> (slot: Slot)
        ensures
            slot == self@.write_target(),
            slot != self@.live,
            self@.well_formed(),
    {
        proof {
            use_type_invariant(self);
        }
        self.live.other()
    }

    /// The buffer of a slot, to be read.
    pub fn buffer(&self, slot: Slot) -> (bitstream: &BitStream)
        ensures
            bitstream@ == self@.bytes(slot),
            has_headers(bitstream@),
            self@.well_formed(),
    {
        proof {
            use_type_invariant(self);
        }
        match slot {
            Slot::A => &self.buffer_a,
            Slot::B => &self.buffer_b,
        }
    }

    /// The buffer that is being shown.
    pub fn live_buffer(&self) -> (bitstream: &BitStream)
        ensures
            bitstream@ == self@.live_bytes(),
            has_headers(bitstream@),
            self@.well_formed(),
    {
        self.buffer(self.live)
    }

    /// Encodes a picture into the buffer of `target`, which must not be the
    /// live one. The live buffer is never touched; a refused request changes
    /// nothing.
    pub fn encode_into(&mut self, target: Slot, rawbuf: &RawBuffer) -> (result: Result<
        (),
        PipelineError,
    >)
        ensures
            result == verdict(old(self)@.live, target),
            final(self)@ == old(self)@.after_encode(target, rawbuf@),
            old(self)@.well_formed(),
            final(self)@.well_formed(),
    {
        proof {
            use_type_invariant(&*self);
            lemma_encoded_keeps_headers(old(self)@.bytes(target), rawbuf@);
        }
        if target == self.live {
            return Err(PipelineError::BufferIsLive);
        }
        match target {
            Slot::A => encode_words(rawbuf, &mut self.buffer_a),
            Slot::B => encode_words(rawbuf, &mut self.buffer_b),
        }
        Ok(())
    }

    /// Replaces one pixel of the picture on show: the write target becomes a
    /// copy of the live buffer, the pixel is written into it, and it is made
    /// live. The buffer that was live is unchanged.
    pub fn retouch(&mut self, x: usize, y: usize, r: u8, g: u8, b: u8)
        requires
            x < WIDTH,
            y < HEIGHT,
        ensures
            final(self)@ == old(self)@.after_retouch(x as int, y as int, r, g, b),
            old(self)@.well_formed(),
            final(self)@.well_formed(),
    {
        proof {
            use_type_invariant(&*self);
            lemma_with_cell_keeps_headers(
                old(self)@.live_bytes(),
                physical_column(x as int, y as int),
                physical_row(y as int),
                corrected(r),
                corrected(g),
                corrected(b),
            );
        }
        match self.live {
            Slot::A => {
                self.buffer_b.copy_from(&self.buffer_a);
                self.buffer_b.encode_pixel(x, y, r, g, b);
                self.live = Slot::B;
            },
            Slot::B => {
                self.buffer_a.copy_from(&self.buffer_b);
                self.buffer_a.encode_pixel(x, y, r, g, b);
                self.live = Slot::A;
            },
        }
    }

    /// Makes the buffer of `slot` the live one, in one step; the buffer that
    /// was live becomes the next write target. No byte of either buffer
    /// changes. A request to submit the live buffer is refused and changes
    /// nothing.
    pub fn submit(&mut self, slot: Slot) -> (result: Result<(), PipelineError>)
        ensures
            result == verdict(old(self)@.live, slot),
            final(self)@ == old(self)@.after_submit(slot),
            old(self)@.well_formed(),
            final(self)@.well_formed(),
    {
        proof {
            use_type_invariant(&*self);
        }
        if slot == self.live {
            return Err(PipelineError::BufferIsLive);
        }
        self.live = slot;
        Ok(())
    }
}

} // verus!
