use akasabi::bits::{LimitedBit, LimitedU16, LimitedU8};

#[test]
fn test_limited_bit_u8_over_bit_new() {
    let lb = LimitedBit::<u8, 9>::new(0b1111_1111);
    assert_eq!(lb.get(), 0b1111_1111);
}

#[test]
fn limited_bit_u8_4bit_zero() {
    assert_eq!(LimitedBit::<u8, 4>::new(0b0000_0000).get(), 0b0000_0000);
}

#[test]
fn limited_bit_u8_4bit_positive() {
    assert_eq!(LimitedBit::<u8, 4>::new(0b0000_0100).get(), 0b0000_0100);
}

#[test]
fn limited_bit_u8_4bit_negative() {
    assert_eq!(LimitedBit::<u8, 4>::new(0b0000_1000).get(), 0b1111_1000);
}

#[test]
fn limited_bit_u8_4bit_high_bits_dropped() {
    assert_eq!(LimitedBit::<u8, 4>::new(0b1111_0000).get(), 0b0000_0000);
}

#[test]
fn limited_bit_u16_five_bit_minus_five() {
    assert_eq!(LimitedBit::<u16, 5>::new(0b1_1011).get(), 0xFFFB);
}

#[test]
fn limited_bit_u16_nine_bit_max_is_minus_one() {
    assert_eq!(LimitedBit::<u16, 9>::new(0x1FF).get(), 0xFFFF);
}

#[test]
fn limited_bit_u16_eleven_bit_positive() {
    assert_eq!(LimitedBit::<u16, 11>::new(0x3FF).get(), 0x3FF);
    assert_eq!(LimitedBit::<u16, 11>::new(0xF3FF).get(), 0x3FF);
}

#[test]
fn limited_bit_u16_full_width_keeps_value() {
    assert_eq!(LimitedBit::<u16, 16>::new(0x8001).get(), 0x8001);
}

#[test]
fn limited_bit_zero_width_is_zero() {
    assert_eq!(LimitedBit::<u16, 0>::new(0xFFFF).get(), 0);
}

#[test]
fn limited_bit_u32_and_u64() {
    assert_eq!(LimitedBit::<u32, 8>::new(0x80).get(), 0xFFFF_FF80);
    assert_eq!(LimitedBit::<u32, 8>::new(0x17F).get(), 0x7F);
    assert_eq!(LimitedBit::<u64, 6>::new(0x20).get(), 0xFFFF_FFFF_FFFF_FFE0);
    assert_eq!(LimitedBit::<u64, 6>::new(0x1F).get(), 0x1F);
}

#[test]
fn limited_bit_rewrap_is_idempotent() {
    for x in 0u16..=0xFFFF {
        let once = LimitedBit::<u16, 9>::new(x).get();
        assert_eq!(LimitedBit::<u16, 9>::new(once).get(), once);
    }
}

#[test]
fn limited_u8_masks_high_bits() {
    assert_eq!(LimitedU8::<5>::new(0b1110_1011).get(), 0b0_1011);
    assert_eq!(LimitedU8::<8>::new(0xAB).get(), 0xAB);
    assert_eq!(LimitedU8::<0>::new(0xFF).get(), 0);
}

#[test]
fn limited_u16_masks_high_bits() {
    assert_eq!(LimitedU16::<12>::new(0xABCD).get(), 0xBCD);
    assert_eq!(LimitedU16::<16>::new(0xABCD).get(), 0xABCD);
    assert_eq!(LimitedU16::<20>::new(0xABCD).get(), 0xABCD);
}

#[test]
fn limited_fields_convert_both_ways() {
    let f: LimitedU8<3> = LimitedU8::from(0b1111_1101u8);
    assert_eq!(u8::from(f), 0b101);
    let g: LimitedU16<4> = LimitedU16::from(0xFFF7u16);
    assert_eq!(u16::from(g), 0x7);
}
