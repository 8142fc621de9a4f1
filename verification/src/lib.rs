//! Driver logic for a 32x32 RGB LED matrix panel: pixel values, gamma
//! correction, the bit-plane layout of the scan buffer, the frame encoder,
//! the double-buffered streaming pipeline and the bring-up handshake.
//!
//! The library decides what the bytes of a scan buffer are and which of the
//! two buffers is shown. Moving a buffer to the panel, and driving the pins
//! of the handshake, is left to the firmware around it.

pub mod bitstream;
pub mod bringup;
pub mod constants;
pub mod cosmic_unicorn;
pub mod encoder;
pub mod framebuffer;
pub mod gamma;
pub mod pipeline;
pub mod pixel;
pub mod sketch;
