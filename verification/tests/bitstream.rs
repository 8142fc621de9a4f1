use cosmic_unicorn::bitstream::{remap, BitStream};
use cosmic_unicorn::constants::{
    BCD_FRAME_BYTES, BCD_FRAME_COUNT, BITSTREAM_LENGTH, COLUMN_COUNT, ROW_BYTES, ROW_COUNT,
};

fn plane(row: usize, frame: usize) -> usize {
    row * ROW_BYTES + frame * BCD_FRAME_BYTES
}

fn ticks(bytes: &[u8; BITSTREAM_LENGTH], row: usize, frame: usize) -> u32 {
    let at = plane(row, frame) + 68;
    u32::from_le_bytes([bytes[at], bytes[at + 1], bytes[at + 2], bytes[at + 3]])
}

#[test]
fn geometry_multiplies_out() {
    assert_eq!(ROW_BYTES, BCD_FRAME_COUNT * BCD_FRAME_BYTES);
    assert_eq!(ROW_BYTES, 1008);
    assert_eq!(BITSTREAM_LENGTH, ROW_COUNT * ROW_BYTES);
    assert_eq!(BITSTREAM_LENGTH, 16128);
}

#[test]
fn a_new_buffer_is_all_zero() {
    let bitstream = BitStream::new();
    assert!(bitstream.to_bytes().iter().all(|byte| *byte == 0));
    assert_eq!(bitstream.to_bytes().len(), BITSTREAM_LENGTH);
}

#[test]
fn headers_hold_column_count_row_and_ticks() {
    let mut bitstream = BitStream::new();
    bitstream.init_bitstream();
    let bytes = bitstream.to_bytes();
    for row in 0..ROW_COUNT {
        for frame in 0..BCD_FRAME_COUNT {
            let at = plane(row, frame);
            assert_eq!(bytes[at], 63);
            assert_eq!(bytes[at + 1], row as u8);
            assert_eq!(ticks(&bytes, row, frame), 1 << frame);
        }
    }
    assert_eq!(ticks(&bytes, 0, 0), 1);
    assert_eq!(ticks(&bytes, 15, 13), 8192);
    assert_eq!(bytes[plane(3, 13) + 68], 0x00);
    assert_eq!(bytes[plane(3, 13) + 69], 0x20);
    assert_eq!(bytes[plane(3, 13) + 70], 0x00);
    assert_eq!(bytes[plane(3, 13) + 71], 0x00);
}

#[test]
fn tick_counts_of_a_row_double_from_one() {
    let mut bitstream = BitStream::new();
    bitstream.init_bitstream();
    let bytes = bitstream.to_bytes();
    let expected = [1, 2, 4, 8, 16, 32, 64, 128, 256, 512, 1024, 2048, 4096, 8192];
    for row in 0..ROW_COUNT {
        for frame in 0..BCD_FRAME_COUNT {
            assert_eq!(ticks(&bytes, row, frame), expected[frame]);
        }
    }
}

#[test]
fn headers_leave_pixel_data_and_padding_alone() {
    let mut bitstream = BitStream::new();
    for at in 0..BITSTREAM_LENGTH {
        bitstream.set_byte(at, (at % 251) as u8 | 0x80);
    }
    let before = bitstream.to_bytes();
    bitstream.init_bitstream();
    let after = bitstream.to_bytes();
    for at in 0..BITSTREAM_LENGTH {
        let field = at % BCD_FRAME_BYTES;
        if (2..68).contains(&field) {
            assert_eq!(after[at], before[at]);
        }
    }
    assert_eq!(after[0], 63);
    assert_ne!(before[0], 63);
}

#[test]
fn laying_headers_twice_changes_nothing() {
    let mut bitstream = BitStream::new();
    bitstream.write_cell(5, 7, 0x3fff, 0x1555, 0x2aaa);
    bitstream.init_bitstream();
    let once = bitstream.to_bytes();
    bitstream.init_bitstream();
    assert!(bitstream.to_bytes() == once);
}

#[test]
fn remap_of_the_corners() {
    assert_eq!(remap(0, 0), (31, 15));
    assert_eq!(remap(31, 31), (32, 0));
    assert_eq!(remap(0, 31), (63, 0));
    assert_eq!(remap(31, 0), (0, 15));
    assert_eq!(remap(0, 15), (31, 0));
    assert_eq!(remap(0, 16), (63, 15));
}

#[test]
fn remap_fills_the_panel_one_to_one() {
    let mut seen = [[false; COLUMN_COUNT]; ROW_COUNT];
    for y in 0..32 {
        for x in 0..32 {
            let (column, row) = remap(x, y);
            assert!(column < COLUMN_COUNT);
            assert!(row < ROW_COUNT);
            assert!(!seen[row][column]);
            seen[row][column] = true;
            let mirrored_x = 31 - x;
            let mirrored_y = 31 - y;
            if mirrored_y < 16 {
                assert_eq!((column, row), (mirrored_x + 32, mirrored_y));
            } else {
                assert_eq!((column, row), (mirrored_x, mirrored_y - 16));
            }
        }
    }
    assert!(seen.iter().all(|row| row.iter().all(|cell| *cell)));
}

#[test]
fn a_cell_of_low_red_lights_the_eight_low_planes() {
    let mut bitstream = BitStream::new();
    bitstream.init_bitstream();
    let before = bitstream.to_bytes();
    bitstream.write_cell(31, 15, 255, 0, 0);
    let after = bitstream.to_bytes();
    for frame in 0..BCD_FRAME_COUNT {
        let at = plane(15, frame) + 2 + 31;
        if frame < 8 {
            assert_eq!(after[at], 0b100);
        } else {
            assert_eq!(after[at], 0);
        }
    }
    let changed = (0..BITSTREAM_LENGTH).filter(|at| after[*at] != before[*at]).count();
    assert_eq!(changed, 8);
}

#[test]
fn a_cell_packs_blue_green_red_from_bit_zero() {
    let mut bitstream = BitStream::new();
    bitstream.write_cell(0, 0, 0b001, 0b010, 0b100);
    let bytes = bitstream.to_bytes();
    assert_eq!(bytes[plane(0, 0) + 2], 0b100);
    assert_eq!(bytes[plane(0, 1) + 2], 0b010);
    assert_eq!(bytes[plane(0, 2) + 2], 0b001);
    assert_eq!(bytes[plane(0, 3) + 2], 0);
    bitstream.write_cell(63, 9, 0x3fff, 0x3fff, 0x3fff);
    let bytes = bitstream.to_bytes();
    for frame in 0..BCD_FRAME_COUNT {
        assert_eq!(bytes[plane(9, frame) + 2 + 63], 0b111);
    }
}

#[test]
fn a_cell_shows_fourteen_bits_and_no_more() {
    let mut bitstream = BitStream::new();
    bitstream.write_cell(10, 3, 0xc000, 0x8000, 0x4000);
    assert!(bitstream.to_bytes().iter().all(|byte| *byte == 0));
    bitstream.write_cell(10, 3, 0xe000, 0, 0);
    let bytes = bitstream.to_bytes();
    assert_eq!(bytes[plane(3, 13) + 2 + 10], 0b100);
    assert_eq!(bytes.iter().filter(|byte| **byte != 0).count(), 1);
}

#[test]
fn a_cell_is_overwritten_not_merged() {
    let mut bitstream = BitStream::new();
    bitstream.write_cell(4, 4, 0x3fff, 0x3fff, 0x3fff);
    bitstream.write_cell(4, 4, 0, 1, 0);
    let bytes = bitstream.to_bytes();
    assert_eq!(bytes[plane(4, 0) + 2 + 4], 0b010);
    for frame in 1..BCD_FRAME_COUNT {
        assert_eq!(bytes[plane(4, frame) + 2 + 4], 0);
    }
}

#[test]
fn a_saturated_red_pixel_lights_red_in_every_plane() {
    let mut bitstream = BitStream::new();
    bitstream.init_bitstream();
    let before = bitstream.to_bytes();
    bitstream.encode_pixel(0, 0, 255, 0, 0);
    let after = bitstream.to_bytes();
    for frame in 0..BCD_FRAME_COUNT {
        assert_eq!(after[plane(15, frame) + 2 + 31], 0b100);
    }
    let changed = (0..BITSTREAM_LENGTH).filter(|at| after[*at] != before[*at]).count();
    assert_eq!(changed, 14);
}

#[test]
fn a_pixel_is_gamma_corrected_before_it_is_split() {
    let mut bitstream = BitStream::new();
    bitstream.encode_pixel(31, 31, 100, 3, 7);
    let bytes = bitstream.to_bytes();
    let (red, green, blue) = (2089u16, 1u16, 6u16);
    for frame in 0..BCD_FRAME_COUNT {
        let expected =
            ((blue >> frame) & 1) | (((green >> frame) & 1) << 1) | (((red >> frame) & 1) << 2);
        assert_eq!(bytes[plane(0, frame) + 2 + 32], expected as u8);
    }
    assert_eq!(bytes[plane(0, 0) + 2 + 32], 0b110);
    assert_eq!(bytes[plane(0, 1) + 2 + 32], 0b001);
}

#[test]
fn a_dark_pixel_clears_its_cell() {
    let mut bitstream = BitStream::new();
    bitstream.encode_pixel(9, 20, 255, 255, 255);
    bitstream.encode_pixel(9, 20, 0, 0, 0);
    assert!(bitstream.to_bytes().iter().all(|byte| *byte == 0));
}

#[test]
fn a_copy_has_the_same_bytes() {
    let mut source = BitStream::new();
    source.init_bitstream();
    source.encode_pixel(1, 2, 3, 4, 5);
    let mut copy = BitStream::new();
    copy.copy_from(&source);
    assert!(copy.to_bytes() == source.to_bytes());
    assert!(*copy.words() == *source.words());
}

#[test]
fn a_byte_is_set_and_read_alone() {
    let mut bitstream = BitStream::new();
    bitstream.set_byte(5, 9);
    assert_eq!(bitstream.byte(5), 9);
    assert_eq!(bitstream.byte(4), 0);
    assert_eq!(bitstream.byte(6), 0);
    assert_eq!(bitstream.to_bytes()[5], 9);
    assert_eq!(bitstream.to_bytes().iter().filter(|byte| **byte != 0).count(), 1);
    bitstream.set_byte(4, 0xff);
    bitstream.set_byte(6, 0xfe);
    bitstream.set_byte(7, 0xfd);
    bitstream.set_byte(5, 1);
    assert_eq!(bitstream.to_bytes()[4..8].to_vec(), vec![0xff, 1, 0xfe, 0xfd]);
}

#[test]
fn a_word_holds_four_bytes_least_significant_first() {
    let mut bitstream = BitStream::new();
    bitstream.set_byte(8, 0x11);
    bitstream.set_byte(9, 0x22);
    bitstream.set_byte(10, 0x33);
    bitstream.set_byte(11, 0x44);
    assert_eq!(bitstream.words()[2], 0x4433_2211);
    assert_eq!(bitstream.get()[2], 0x4433_2211);
    assert_eq!(bitstream.words().len(), 4032);
    bitstream.init_bitstream();
    let bytes = bitstream.to_bytes();
    for (index, word) in bitstream.words().iter().enumerate() {
        let at = 4 * index;
        assert_eq!(
            *word,
            u32::from_le_bytes([bytes[at], bytes[at + 1], bytes[at + 2], bytes[at + 3]])
        );
    }
    assert_eq!(bitstream.words()[0] & 0xffff, 0x003f);
    assert_eq!(bitstream.words()[17 + 18 * 13], 8192);
}

#[test]
fn the_words_can_be_changed_in_place() {
    let mut bitstream = BitStream::new();
    bitstream.get_mut()[1] = 0x0403_0201;
    assert_eq!(bitstream.to_bytes()[..9].to_vec(), vec![0, 0, 0, 0, 1, 2, 3, 4, 0]);
    assert_eq!(bitstream.byte(6), 3);
}
