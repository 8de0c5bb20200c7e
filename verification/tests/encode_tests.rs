use nrf_smartled::encode::{fill_buf, SYM_HIGH, SYM_IDLE, SYM_LOW};
use nrf_smartled::{Error, Rgb8};

/// Decode one 8-symbol channel group back into a byte: bit `k` of the
/// channel sits at position `7 - k` of its group.
fn decode_group(buf: &[u16], group: usize) -> u8 {
    let mut v: u8 = 0;
    for k in 0..8 {
        if buf[group * 8 + 7 - k] == SYM_HIGH {
            v |= 1 << k;
        }
    }
    v
}

#[test]
fn pure_red_is_all_high_in_red_group() {
    let red = Rgb8 { r: 255, g: 0, b: 0 };
    let mut buf = vec![0u16; 24];
    assert_eq!(fill_buf(&red, &mut buf), Ok(()));
    for i in 0..8 {
        assert_eq!(buf[i], SYM_LOW, "green group symbol {i}");
    }
    for i in 8..16 {
        assert_eq!(buf[i], SYM_HIGH, "red group symbol {i}");
    }
    for i in 16..24 {
        assert_eq!(buf[i], SYM_LOW, "blue group symbol {i}");
    }
}

#[test]
fn symbols_carry_polarity_bit() {
    assert_eq!(SYM_HIGH, 0x8000 | 13);
    assert_eq!(SYM_LOW, 0x8000 | 5);
    assert_eq!(SYM_IDLE, 0x8000);
}

#[test]
fn bit_positions_are_reversed_within_groups() {
    // Green 0b1000_0001: bit 7 lands at position 0, bit 0 at position 7.
    let c = Rgb8 { r: 0, g: 0b1000_0001, b: 0 };
    let mut buf = vec![0u16; 24];
    assert_eq!(fill_buf(&c, &mut buf), Ok(()));
    assert_eq!(buf[0], SYM_HIGH);
    for i in 1..7 {
        assert_eq!(buf[i], SYM_LOW);
    }
    assert_eq!(buf[7], SYM_HIGH);
}

#[test]
fn encode_decode_round_trip() {
    let cases = [
        Rgb8 { r: 0, g: 0, b: 0 },
        Rgb8 { r: 255, g: 255, b: 255 },
        Rgb8 { r: 0x12, g: 0x34, b: 0x56 },
        Rgb8 { r: 0xa5, g: 0x5a, b: 0xff },
        Rgb8 { r: 1, g: 2, b: 4 },
    ];
    for c in cases {
        let mut buf = vec![0u16; 24];
        assert_eq!(fill_buf(&c, &mut buf), Ok(()));
        assert_eq!(decode_group(&buf, 0), c.g);
        assert_eq!(decode_group(&buf, 1), c.r);
        assert_eq!(decode_group(&buf, 2), c.b);
    }
}

#[test]
fn short_buffer_fails_untouched() {
    let c = Rgb8 { r: 9, g: 9, b: 9 };
    let mut buf = vec![7u16; 23];
    assert_eq!(fill_buf(&c, &mut buf), Err(Error::BufferTooSmall));
    assert_eq!(buf, vec![7u16; 23]);
    let mut empty: Vec<u16> = Vec::new();
    assert_eq!(fill_buf(&c, &mut empty), Err(Error::BufferTooSmall));
    assert!(empty.is_empty());
}

#[test]
fn buffer_past_frame_is_untouched() {
    let c = Rgb8 { r: 1, g: 2, b: 3 };
    let mut buf = vec![0xbeefu16; 30];
    assert_eq!(fill_buf(&c, &mut buf), Ok(()));
    for i in 24..30 {
        assert_eq!(buf[i], 0xbeef);
    }
}
