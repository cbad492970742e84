use skipbot::seed::mix_seed;

#[test]
fn seeds_are_mixed_bit_by_bit() {
    assert_eq!(mix_seed(0, 0, 0), 0);
    assert_eq!(mix_seed(1, 2, 3), 0xad90_c2d7_0178_92f2);
    assert_eq!(mix_seed(0xC0FFEE_u64 << 32 | 0x5EED_u64, 7, 0x5EED_15), 0x2899_29e8_6f70_bc7e);
    assert_eq!(mix_seed(u64::MAX, u64::MAX, u64::MAX), 0x9180_f973_34f7_8f65);
}

#[test]
fn the_counters_change_the_seed() {
    let base = 42;
    assert_ne!(mix_seed(base, 0, 0), mix_seed(base, 1, 0));
    assert_ne!(mix_seed(base, 0, 0), mix_seed(base, 0, 1));
    assert_ne!(mix_seed(base, 1, 0), mix_seed(base, 0, 1));
}
