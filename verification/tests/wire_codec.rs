use esp_rs_pad::wire::{buttons_from_frame, frame_from_wire, wire_bits};

#[test]
fn wire_bits_send_last_byte_first_lsb_first() {
    let mut frame = [0u8; 16];
    frame[0] = 0x01;
    frame[15] = 0x80;
    let bits = wire_bits(&frame);
    assert_eq!(bits.len(), 128);
    for (k, b) in bits.iter().enumerate() {
        let expected = k == 7 || k == 120;
        assert_eq!(*b, expected, "bit {}", k);
    }
}

#[test]
fn wire_bits_of_uniform_frames() {
    assert!(wire_bits(&[0u8; 16]).iter().all(|b| !*b));
    assert!(wire_bits(&[255u8; 16]).iter().all(|b| *b));
}

#[test]
fn wire_bits_of_mixed_byte() {
    let mut frame = [0u8; 16];
    frame[14] = 0b1010_0110;
    let bits = wire_bits(&frame);
    let expected = [false, true, true, false, false, true, false, true];
    assert_eq!(&bits[8..16], &expected[..]);
}

#[test]
fn frame_from_wire_packs_first_bit_high_and_reverses_bytes() {
    let mut levels = vec![false; 128];
    levels[0] = true;
    levels[127] = true;
    let frame = frame_from_wire(&levels);
    let mut expected = [0u8; 16];
    expected[15] = 0x80;
    expected[0] = 0x01;
    assert_eq!(frame, expected);
}

#[test]
fn frame_from_wire_of_all_high() {
    assert_eq!(frame_from_wire(&vec![true; 128]), [0xffu8; 16]);
    assert_eq!(frame_from_wire(&vec![false; 128]), [0u8; 16]);
}

#[test]
fn wire_round_trip_reverses_bits_of_each_byte() {
    let mut frame = [0u8; 16];
    frame[3] = 0x01;
    frame[9] = 0b1100_0000;
    let back = frame_from_wire(&wire_bits(&frame));
    let mut expected = [0u8; 16];
    expected[3] = 0x80;
    expected[9] = 0b0000_0011;
    assert_eq!(back, expected);
}

#[test]
fn buttons_from_frame_marks_zero_bytes_pressed() {
    let mut frame = [0xffu8; 16];
    frame[2] = 0;
    frame[11] = 0;
    frame[5] = 0x01;
    let pressed = buttons_from_frame(&frame);
    for i in 0..16 {
        assert_eq!(pressed[i], i == 2 || i == 11);
    }
    assert_eq!(buttons_from_frame(&[0u8; 16]), [true; 16]);
}
