use huidu::error::ProtoError;
use huidu::hd2020::bitmap::{fits, measure, realtime_text_frame, render, MonoBitmap, TextLayout};
use huidu::hd2020::font::{
    glyph_rows, has_glyph, CELL_HEIGHT, CELL_WIDTH, FIRST_CODEPOINT, FONT, GLYPH_COUNT, LAST_CODEPOINT, MISSING_GLYPH,
};
use huidu::hd2020::frame::{Hd2020Cmd, Hd2020Frame};

#[test]
fn stride_rounds_up_to_bytes() {
    assert_eq!(MonoBitmap::new(1, 1).stride(), 1);
    assert_eq!(MonoBitmap::new(8, 1).stride(), 1);
    assert_eq!(MonoBitmap::new(9, 1).stride(), 2);
    assert_eq!(MonoBitmap::new(64, 1).stride(), 8);
}

#[test]
fn set_get_roundtrips_and_packs_msb_first() {
    let mut b = MonoBitmap::new(8, 2);
    b.set(0, 0, true); // leftmost pixel -> bit 7
    b.set(7, 1, true); // rightmost pixel of row 1 -> bit 0
    assert!(b.get(0, 0));
    assert!(b.get(7, 1));
    assert!(!b.get(1, 0));
    assert_eq!(b.as_bytes(), &[0b1000_0000, 0b0000_0001]);
}

#[test]
fn out_of_bounds_set_is_ignored() {
    let mut b = MonoBitmap::new(4, 4);
    b.set(10, 10, true); // no panic, no effect
    assert_eq!(b.as_bytes(), &[0u8; 4]);
}

#[test]
fn blit_char_clips_negative_and_offscreen() {
    // Blit 'A' partly off the top-left; must not panic and must set at
    // least one on-panel pixel from the glyph body.
    let mut b = MonoBitmap::new(3, 3);
    b.blit_char('A', -1, -1);
    let any = (0..3).any(|y| (0..3).any(|x| b.get(x, y)));
    assert!(any);
}

#[test]
fn render_places_first_glyph_column_at_x_offset() {
    // 'I' top row is .###. -> its leftmost lit column is x=1 within the cell.
    let layout = TextLayout { letter_spacing: 1, x_offset: 0, y_offset: Some(0) };
    let b = render("I", CELL_WIDTH, CELL_HEIGHT, &layout);
    assert!(!b.get(0, 0));
    assert!(b.get(1, 0));
    assert!(b.get(3, 0));
}

#[test]
fn measure_accounts_for_spacing() {
    let layout = TextLayout::default(); // letter_spacing = 1
    // 3 glyphs: 3*5 + 2*1 = 17.
    assert_eq!(measure("abc", &layout), 17);
    assert_eq!(measure("", &layout), 0);
}

#[test]
fn payload_prefixes_little_endian_dimensions() {
    let b = MonoBitmap::new(16, 7);
    let p = b.to_payload().unwrap();
    assert_eq!(&p[..4], &[16, 0, 7, 0]);
    assert_eq!(p.len(), 4 + b.stride() * 7);
}

#[test]
fn set_then_get_reads_back_and_clearing_works() {
    let mut b = MonoBitmap::new(12, 3);
    b.set(9, 2, true);
    assert!(b.get(9, 2));
    assert!(!b.get(8, 2));
    b.set(9, 2, false);
    assert!(!b.get(9, 2));
    assert!(b.as_bytes().iter().all(|&x| x == 0));
}

#[test]
fn blob_has_one_row_byte_per_glyph_row() {
    assert_eq!(FONT.len(), GLYPH_COUNT * CELL_HEIGHT);
}

#[test]
fn space_is_blank() {
    assert_eq!(glyph_rows(' '), [0u8; CELL_HEIGHT]);
}

#[test]
fn capital_a_has_expected_top_and_crossbar() {
    // 'A': .###. on top, ##### crossbar in the middle row.
    let a = glyph_rows('A');
    assert_eq!(a[0] & 0b11111, 0b01110);
    assert_eq!(a[3] & 0b11111, 0b11111);
}

#[test]
fn unknown_char_falls_back_to_box() {
    assert!(!has_glyph('€'));
    assert_eq!(glyph_rows('€'), MISSING_GLYPH);
}

#[test]
fn every_printable_ascii_has_a_glyph() {
    for cp in FIRST_CODEPOINT..=LAST_CODEPOINT {
        let ch = char::from_u32(cp).unwrap();
        assert!(has_glyph(ch), "missing {ch:?}");
    }
}

#[test]
fn cmd_roundtrips_through_u8() {
    for c in [Hd2020Cmd::RealtimeText, Hd2020Cmd::Clear, Hd2020Cmd::Brightness] {
        assert_eq!(Hd2020Cmd::from_u8(c.as_u8()).unwrap(), c);
    }
}

#[test]
fn unknown_cmd_errors() {
    let err = Hd2020Cmd::from_u8(0x7f).unwrap_err();
    assert!(matches!(err, ProtoError::Hd2020(_)));
}

#[test]
fn encode_decode_roundtrips() {
    let frame = Hd2020Frame::new(Hd2020Cmd::RealtimeText, vec![1, 2, 3, 4]);
    let bytes = frame.encode().unwrap();
    let (decoded, used) = Hd2020Frame::decode(&bytes).unwrap().unwrap();
    assert_eq!(decoded, frame);
    assert_eq!(used, bytes.len());
}

#[test]
fn brightness_frame_is_well_formed() {
    let frame = Hd2020Frame::new(Hd2020Cmd::Brightness, vec![0x80]);
    let b = frame.encode().unwrap();
    // start, cmd, len(1,0), payload 0x80, checksum = (0x03 + 0x01 + 0x80) & 0xff.
    assert_eq!(&b[..5], &[0xA5, 0x03, 0x01, 0x00, 0x80]);
    assert_eq!(b[5], 0x03u8.wrapping_add(0x01).wrapping_add(0x80));
}

#[test]
fn frame_decode_waits_for_full_frame() {
    let frame = Hd2020Frame::new(Hd2020Cmd::Clear, Vec::new());
    let bytes = frame.encode().unwrap();
    assert!(Hd2020Frame::decode(&bytes[..bytes.len() - 1]).unwrap().is_none());
    assert!(Hd2020Frame::decode(&bytes).unwrap().is_some());
}

#[test]
fn decode_rejects_bad_start_byte() {
    let mut bytes = Hd2020Frame::new(Hd2020Cmd::Clear, Vec::new()).encode().unwrap();
    bytes[0] = 0x00;
    let err = Hd2020Frame::decode(&bytes).unwrap_err();
    assert!(matches!(err, ProtoError::Hd2020(_)));
}

#[test]
fn decode_rejects_corrupt_checksum() {
    let mut bytes = Hd2020Frame::new(Hd2020Cmd::Brightness, vec![0x40]).encode().unwrap();
    let last = bytes.len() - 1;
    bytes[last] ^= 0xff;
    let err = Hd2020Frame::decode(&bytes).unwrap_err();
    assert!(matches!(err, ProtoError::Hd2020(_)));
}

#[test]
fn decode_reports_bytes_consumed_leaving_trailing_data() {
    let one = Hd2020Frame::new(Hd2020Cmd::Clear, Vec::new()).encode().unwrap();
    let mut two = one.clone();
    two.extend_from_slice(&[0xde, 0xad]); // trailing bytes of a next frame
    let (_, used) = Hd2020Frame::decode(&two).unwrap().unwrap();
    assert_eq!(used, one.len());
}

#[test]
fn realtime_text_frame_roundtrips_to_a_bitmap() {
    let layout = TextLayout::default();
    let wire = realtime_text_frame("HI", 32, 8, &layout).unwrap();
    let (frame, used) = Hd2020Frame::decode(&wire).unwrap().unwrap();
    assert_eq!(used, wire.len());
    assert_eq!(frame.cmd, Hd2020Cmd::RealtimeText);
    // Payload begins with the little-endian 32×8 dimensions.
    assert_eq!(&frame.payload[..4], &[32, 0, 8, 0]);
    // Some pixels are lit — the text actually rendered.
    assert!(frame.payload[4..].iter().any(|&b| b != 0));
}

/// The captured brightness frame: level 0x80.
fn brightness_capture() -> Vec<u8> {
    vec![0xA5, 0x03, 0x01, 0x00, 0x80, 0x84]
}

#[test]
fn brightness_golden_decodes() {
    let (frame, used) = Hd2020Frame::decode(&brightness_capture()).unwrap().unwrap();
    assert_eq!(frame.cmd, Hd2020Cmd::Brightness);
    assert_eq!(&frame.payload[..], &[0x80]);
    assert_eq!(used, 6);
}

#[test]
fn brightness_golden_reencodes() {
    let golden = brightness_capture();
    let bytes = Hd2020Frame::new(Hd2020Cmd::Brightness, vec![0x80u8]).encode().unwrap();
    assert_eq!(&bytes[..], &golden[..]);
}

#[test]
fn realtime_hi_golden_decodes_to_a_32x8_bitmap() {
    let wire = realtime_text_frame("HI", 32, 8, &TextLayout::default()).unwrap();
    let (frame, used) = Hd2020Frame::decode(&wire).unwrap().unwrap();
    assert_eq!(frame.cmd, Hd2020Cmd::RealtimeText);
    assert_eq!(used, wire.len());
    // 4-byte header: width=32, height=8, then one row of packed pixels.
    assert_eq!(&frame.payload[..4], &[0x20, 0x00, 0x08, 0x00]);
    assert_eq!(&frame.payload[4..8], &[0x89, 0xc0, 0x00, 0x00]);
}

#[test]
fn vertical_centering_rounds_toward_the_top() {
    // An 8-row panel centers the 7-row cell at row 0; a 9-row one at row 1.
    let b8 = render("I", 5, 8, &TextLayout::default());
    assert!(b8.get(1, 0));
    let b9 = render("I", 5, 9, &TextLayout::default());
    assert!(!b9.get(1, 0));
    assert!(b9.get(1, 1));
}

#[test]
fn short_panel_is_top_aligned() {
    // A 5-row panel is shorter than the 7-row cell: the glyph starts at row 0
    // and its bottom rows are clipped.
    let b = render("A", 5, 5, &TextLayout::default());
    let rows = glyph_rows('A');
    for y in 0..5 {
        for x in 0..5 {
            assert_eq!(b.get(x, y), (rows[y] >> (4 - x)) & 1 == 1, "pixel ({x}, {y})");
        }
    }
}

#[test]
fn padding_bits_stay_clear() {
    // A 5-pixel-wide panel packs each row into one byte; its low three bits
    // are padding and stay clear whatever is drawn.
    let mut b = MonoBitmap::new(5, 7);
    b.blit_char('W', 0, 0);
    b.blit_char('M', 2, 0);
    for x in 0..8 {
        b.set(x, 3, true);
    }
    assert!(b.as_bytes().iter().all(|byte| byte & 0b0000_0111 == 0));
    let r = render("WWWW", 13, 7, &TextLayout::default());
    assert!(r.as_bytes().chunks(2).all(|row| row[1] & 0b0000_0111 == 0));
}

#[test]
fn fits_checks_the_render_bounds() {
    assert!(fits("hello", 64, 16, &TextLayout::default()));
    let wide = TextLayout { letter_spacing: usize::MAX - 2, x_offset: 0, y_offset: None };
    assert!(!fits("hi", 64, 16, &wide));
    let low = TextLayout { letter_spacing: 1, x_offset: 0, y_offset: Some(usize::MAX) };
    assert!(!fits("hi", 64, 16, &low));
    assert!(!fits("hi", 64, (i32::MAX as usize) + 1, &TextLayout::default()));
}
