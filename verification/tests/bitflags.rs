use image_filters::bitflags::BitFlags;

#[test]
fn test_get() {
    let flags = BitFlags::new(0b0000000000000000);

    assert_eq!(flags.get(0), false);
    assert_eq!(flags.get(1), false);
    assert_eq!(flags.get(2), false);
    assert_eq!(flags.get(3), false);
    assert_eq!(flags.get(4), false);
    assert_eq!(flags.get(5), false);
    assert_eq!(flags.get(6), false);
    assert_eq!(flags.get(7), false);

    let flags = BitFlags::new(0b0000000000001011);

    assert_eq!(flags.get(0), true);
    assert_eq!(flags.get(1), true);
    assert_eq!(flags.get(2), false);
    assert_eq!(flags.get(3), true);
    assert_eq!(flags.get(4), false);
    assert_eq!(flags.get(5), false);
    assert_eq!(flags.get(6), false);
    assert_eq!(flags.get(7), false);

    let flags = BitFlags::new(0b0000000011111111);

    assert_eq!(flags.get(0), true);
    assert_eq!(flags.get(1), true);
    assert_eq!(flags.get(2), true);
    assert_eq!(flags.get(3), true);
    assert_eq!(flags.get(4), true);
    assert_eq!(flags.get(5), true);
    assert_eq!(flags.get(6), true);
    assert_eq!(flags.get(7), true);

    assert_eq!(flags.get(8), false);
    assert_eq!(flags.get(9), false);
    assert_eq!(flags.get(10), false);
    assert_eq!(flags.get(16), false);
}

#[test]
fn get_reads_the_top_bit() {
    let flags = BitFlags::new(0b1000000000000000);
    assert_eq!(flags.get(15), true);
    assert_eq!(flags.get(14), false);
}

#[test]
fn get_is_false_far_past_the_word() {
    let flags = BitFlags::new(0xffff);
    assert_eq!(flags.get(16), false);
    assert_eq!(flags.get(64), false);
    assert_eq!(flags.get(usize::MAX), false);
}
