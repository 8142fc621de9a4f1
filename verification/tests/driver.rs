use cosmic_unicorn::bitstream::BitStream;
use cosmic_unicorn::bringup::PinOp;
use cosmic_unicorn::constants::{BCD_FRAME_BYTES, BITSTREAM_LENGTH, PIXEL_COUNT};
use cosmic_unicorn::cosmic_unicorn::CosmicUnicorn;
use cosmic_unicorn::encoder::encode;
use cosmic_unicorn::pipeline::Slot;
use cosmic_unicorn::pixel::Pixel;

fn image_of(pixels: &[Pixel; PIXEL_COUNT]) -> [u8; BITSTREAM_LENGTH] {
    let mut bitstream = BitStream::new();
    bitstream.init_bitstream();
    encode(pixels, &mut bitstream);
    bitstream.to_bytes()
}

fn headers_in_place(bytes: &[u8; BITSTREAM_LENGTH]) -> bool {
    (0..16 * 14).all(|plane| {
        let at = plane * BCD_FRAME_BYTES;
        bytes[at] == 63
            && bytes[at + 1] == (plane / 14) as u8
            && u32::from_le_bytes([bytes[at + 68], bytes[at + 69], bytes[at + 70], bytes[at + 71]])
                == 1 << (plane % 14)
    })
}

#[test]
fn a_new_driver_shows_a_dark_picture() {
    let unicorn = CosmicUnicorn::new();
    assert_eq!(unicorn.live(), Slot::A);
    let dark = [Pixel::black(); PIXEL_COUNT];
    assert!(unicorn.live_buffer().to_bytes() == image_of(&dark));
    assert!(headers_in_place(&unicorn.live_buffer().to_bytes()));
}

#[test]
fn two_updates_in_a_row_show_each_picture_whole() {
    let mut first = [Pixel::black(); PIXEL_COUNT];
    let mut second = [Pixel::black(); PIXEL_COUNT];
    for index in 0..PIXEL_COUNT {
        first[index] = Pixel::new(index as u8, 255, (index / 4) as u8);
        second[index] = Pixel::new(7, (index / 3) as u8, 255 - index as u8);
    }
    let mut unicorn = CosmicUnicorn::new();

    unicorn.update(&first);
    assert_eq!(unicorn.live(), Slot::B);
    assert!(unicorn.live_buffer().to_bytes() == image_of(&first));
    assert!(headers_in_place(&unicorn.live_buffer().to_bytes()));

    unicorn.update(&second);
    assert_eq!(unicorn.live(), Slot::A);
    assert!(unicorn.live_buffer().to_bytes() == image_of(&second));
    assert!(headers_in_place(&unicorn.live_buffer().to_bytes()));
    assert_ne!(image_of(&first).to_vec(), image_of(&second).to_vec());
}

#[test]
fn updates_alternate_between_the_two_buffers() {
    let mut unicorn = CosmicUnicorn::new();
    let picture = [Pixel::new(1, 1, 255); PIXEL_COUNT];
    for round in 0..6 {
        let expected = if round % 2 == 0 { Slot::B } else { Slot::A };
        unicorn.update(&picture);
        assert_eq!(unicorn.live(), expected);
    }
}

#[test]
fn clear_shows_the_dark_picture() {
    let mut unicorn = CosmicUnicorn::new();
    unicorn.update(&[Pixel::white(); PIXEL_COUNT]);
    unicorn.clear();
    let bytes = unicorn.live_buffer().to_bytes();
    assert_eq!(unicorn.live(), Slot::A);
    assert!(bytes == image_of(&[Pixel::black(); PIXEL_COUNT]));
    for at in 0..BITSTREAM_LENGTH {
        if (2..66).contains(&(at % BCD_FRAME_BYTES)) {
            assert_eq!(bytes[at], 0);
        }
    }
    assert!(headers_in_place(&bytes));
}

#[test]
fn set_pixel_changes_one_pixel_of_what_is_shown() {
    let mut unicorn = CosmicUnicorn::new();
    let mut picture = [Pixel::new(10, 20, 30); PIXEL_COUNT];
    unicorn.update(&picture);
    unicorn.set_pixel(31, 0, Pixel::new(255, 128, 0));
    picture[31] = Pixel::new(255, 128, 0);
    assert!(unicorn.live_buffer().to_bytes() == image_of(&picture));
    assert_eq!(unicorn.live(), Slot::A);
    unicorn.set_pixel(0, 31, Pixel::black());
    picture[31 * 32] = Pixel::black();
    assert!(unicorn.live_buffer().to_bytes() == image_of(&picture));
    assert_eq!(unicorn.live(), Slot::B);
}

fn send_bit(script: &mut Vec<PinOp>, level: bool) {
    script.push(PinOp::Data(level));
    script.push(PinOp::DelayUs(10));
    script.push(PinOp::Clock(true));
    script.push(PinOp::DelayUs(10));
    script.push(PinOp::Clock(false));
}

#[test]
fn the_handshake_sends_the_control_word_twelve_times() {
    let word: u16 = 0b1111111111001110;
    let mut expected = vec![PinOp::DelayMs(100)];
    for _ in 0..11 {
        for bit in 0..16 {
            send_bit(&mut expected, word & (1 << (15 - bit)) != 0);
        }
    }
    for bit in 0..16 {
        send_bit(&mut expected, word & (1 << (15 - bit)) != 0);
        if bit == 4 {
            expected.push(PinOp::Latch(true));
        }
    }
    expected.push(PinOp::Latch(false));
    expected.push(PinOp::Blank(false));
    expected.push(PinOp::DelayUs(10));
    expected.push(PinOp::Blank(true));

    let script = CosmicUnicorn::init_pins();
    assert_eq!(script.len(), 966);
    assert_eq!(script, expected);
}

#[test]
fn the_handshake_latches_once_after_the_fifth_bit_of_the_last_word() {
    let script = CosmicUnicorn::init_pins();
    let raised: Vec<usize> =
        (0..script.len()).filter(|at| script[*at] == PinOp::Latch(true)).collect();
    assert_eq!(raised, vec![1 + 11 * 16 * 5 + 5 * 5]);
    let pulses = script.iter().filter(|op| **op == PinOp::Clock(true)).count();
    assert_eq!(pulses, 12 * 16);
    assert_eq!(script[0], PinOp::DelayMs(100));
    assert_eq!(
        script[script.len() - 4..].to_vec(),
        vec![PinOp::Latch(false), PinOp::Blank(false), PinOp::DelayUs(10), PinOp::Blank(true)]
    );
}

#[test]
fn the_data_line_follows_the_control_word() {
    let script = CosmicUnicorn::init_pins();
    let levels: Vec<bool> = script
        .iter()
        .filter_map(|op| match op {
            PinOp::Data(level) => Some(*level),
            _ => None,
        })
        .collect();
    assert_eq!(levels.len(), 12 * 16);
    let word = [
        true, true, true, true, true, true, true, true, true, true, false, false, true, true,
        true, false,
    ];
    for (at, level) in levels.iter().enumerate() {
        assert_eq!(*level, word[at % 16]);
    }
}
