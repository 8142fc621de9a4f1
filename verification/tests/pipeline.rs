use cosmic_unicorn::bitstream::BitStream;
use cosmic_unicorn::constants::{BCD_FRAME_BYTES, BITSTREAM_LENGTH, PIXEL_COUNT};
use cosmic_unicorn::encoder::encode;
use cosmic_unicorn::framebuffer::FrameBuffer;
use cosmic_unicorn::pipeline::{Pipeline, PipelineError, Slot};
use cosmic_unicorn::pixel::Pixel;

fn with_headers() -> BitStream {
    let mut bitstream = BitStream::new();
    bitstream.init_bitstream();
    bitstream
}

fn pixels(r: u8, g: u8, b: u8) -> [Pixel; PIXEL_COUNT] {
    [Pixel::new(r, g, b); PIXEL_COUNT]
}

fn image_of(pixels: &[Pixel; PIXEL_COUNT]) -> [u8; BITSTREAM_LENGTH] {
    let mut bitstream = with_headers();
    encode(pixels, &mut bitstream);
    bitstream.to_bytes()
}

fn picture(r: u8, g: u8, b: u8) -> [u32; PIXEL_COUNT] {
    pixels(r, g, b).as_bytes()
}

#[test]
fn the_other_slot() {
    assert_eq!(Slot::A.other(), Slot::B);
    assert_eq!(Slot::B.other(), Slot::A);
}

#[test]
fn streaming_starts_on_the_first_buffer() {
    let pipeline = Pipeline::start(BitStream::new(), BitStream::new());
    assert_eq!(pipeline.live(), Slot::A);
    assert_eq!(pipeline.next_write_target(), Slot::B);
    assert!(pipeline.buffer(Slot::A).to_bytes() == with_headers().to_bytes());
    assert!(pipeline.buffer(Slot::B).to_bytes() == with_headers().to_bytes());
    assert!(pipeline.live_buffer().to_bytes() == pipeline.buffer(Slot::A).to_bytes());
}

#[test]
fn starting_keeps_what_the_buffers_show() {
    let red = pixels(255, 0, 0);
    let blue = pixels(0, 0, 255);
    let mut first = BitStream::new();
    let mut second = BitStream::new();
    encode(&red, &mut first);
    encode(&blue, &mut second);
    let pipeline = Pipeline::start(first, second);
    assert!(pipeline.buffer(Slot::A).to_bytes() == image_of(&red));
    assert!(pipeline.buffer(Slot::B).to_bytes() == image_of(&blue));
}

#[test]
fn a_submitted_buffer_is_never_the_next_write_target() {
    let mut pipeline = Pipeline::start(BitStream::new(), BitStream::new());
    for _ in 0..5 {
        let target = pipeline.next_write_target();
        let was_live = pipeline.live();
        assert_eq!(pipeline.submit(target), Ok(()));
        assert_ne!(pipeline.next_write_target(), target);
        assert_eq!(pipeline.next_write_target(), was_live);
        assert_eq!(pipeline.live(), target);
    }
}

#[test]
fn submitting_the_live_buffer_is_refused() {
    let mut pipeline = Pipeline::start(BitStream::new(), BitStream::new());
    let before_a = pipeline.buffer(Slot::A).to_bytes();
    let before_b = pipeline.buffer(Slot::B).to_bytes();
    assert_eq!(pipeline.submit(Slot::A), Err(PipelineError::BufferIsLive));
    assert_eq!(pipeline.live(), Slot::A);
    assert_eq!(pipeline.next_write_target(), Slot::B);
    assert!(pipeline.buffer(Slot::A).to_bytes() == before_a);
    assert!(pipeline.buffer(Slot::B).to_bytes() == before_b);
    assert_eq!(pipeline.submit(Slot::B), Ok(()));
    assert_eq!(pipeline.submit(Slot::B), Err(PipelineError::BufferIsLive));
    assert_eq!(pipeline.live(), Slot::B);
}

#[test]
fn submitting_changes_no_byte() {
    let mut pipeline = Pipeline::start(BitStream::new(), BitStream::new());
    assert_eq!(pipeline.encode_into(Slot::B, &picture(9, 8, 7)), Ok(()));
    let before_a = pipeline.buffer(Slot::A).to_bytes();
    let before_b = pipeline.buffer(Slot::B).to_bytes();
    assert_eq!(pipeline.submit(Slot::B), Ok(()));
    assert!(pipeline.buffer(Slot::A).to_bytes() == before_a);
    assert!(pipeline.buffer(Slot::B).to_bytes() == before_b);
    assert!(pipeline.live_buffer().to_bytes() == before_b);
}

#[test]
fn the_live_buffer_cannot_be_written() {
    let mut pipeline = Pipeline::start(BitStream::new(), BitStream::new());
    let before = pipeline.live_buffer().to_bytes();
    assert_eq!(
        pipeline.encode_into(Slot::A, &picture(255, 255, 255)),
        Err(PipelineError::BufferIsLive)
    );
    assert!(pipeline.live_buffer().to_bytes() == before);
    assert!(pipeline.buffer(Slot::B).to_bytes() == before);
    assert_eq!(pipeline.live(), Slot::A);
}

#[test]
fn encoding_into_the_write_target_leaves_the_live_buffer_alone() {
    let mut pipeline = Pipeline::start(BitStream::new(), BitStream::new());
    let white = pixels(255, 255, 255);
    let before = pipeline.live_buffer().to_bytes();
    let target = pipeline.next_write_target();
    assert_eq!(pipeline.encode_into(target, &white.as_bytes()), Ok(()));
    assert_eq!(pipeline.live(), Slot::A);
    assert!(pipeline.live_buffer().to_bytes() == before);
    assert!(pipeline.buffer(target).to_bytes() == image_of(&white));
}

#[test]
fn retouching_changes_one_pixel_of_the_picture_on_show() {
    let mut pipeline = Pipeline::start(BitStream::new(), BitStream::new());
    let green = pixels(0, 255, 0);
    assert_eq!(pipeline.encode_into(Slot::B, &green.as_bytes()), Ok(()));
    assert_eq!(pipeline.submit(Slot::B), Ok(()));
    let shown = pipeline.live_buffer().to_bytes();

    pipeline.retouch(3, 4, 255, 0, 0);

    assert_eq!(pipeline.live(), Slot::A);
    assert!(pipeline.buffer(Slot::B).to_bytes() == shown);
    let mut expected = green;
    expected[4 * 32 + 3] = Pixel::new(255, 0, 0);
    assert!(pipeline.live_buffer().to_bytes() == image_of(&expected));
    let now = pipeline.live_buffer().to_bytes();
    let changed: Vec<usize> = (0..BITSTREAM_LENGTH).filter(|at| now[*at] != shown[*at]).collect();
    assert_eq!(changed.len(), 14);
    assert!(changed.iter().all(|at| at % BCD_FRAME_BYTES == 2 + 28 && at / 1008 == 11));
}
