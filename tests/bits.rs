use k210_shared::bits::set_bit;

#[test]
fn set_bit_sets_and_clears_one_bit() {
    assert_eq!(set_bit(0, 0, true), 1);
    assert_eq!(set_bit(0b1010, 2, true), 0b1110);
    assert_eq!(set_bit(0b1110, 1, false), 0b1100);
    assert_eq!(set_bit(0b1100, 1, false), 0b1100);
    assert_eq!(set_bit(0, 31, true), 0x8000_0000);
    assert_eq!(set_bit(u32::MAX, 31, false), 0x7FFF_FFFF);
}
