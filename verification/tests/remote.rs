use colmeia_dat1::remote::{highest_set, run_holds, test_bit, RemoteBitfield};

#[test]
fn bits_count_from_the_most_significant() {
    assert!(test_bit(0x80, 0));
    assert!(!test_bit(0x80, 1));
    assert!(test_bit(0x01, 7));
    assert!(!test_bit(0x01, 6));
    assert!(test_bit(0x10, 3));
    assert!(!test_bit(0xff, 8));
    for k in 0..8u8 {
        assert!(test_bit(0xff, k));
        assert!(!test_bit(0x00, k));
    }
}

#[test]
fn a_run_holds_the_blocks_of_its_set_bits() {
    let bits = [0b1010_0000u8, 0b0000_0001];
    assert!(run_holds(16, &bits, 16));
    assert!(!run_holds(16, &bits, 17));
    assert!(run_holds(16, &bits, 18));
    assert!(run_holds(16, &bits, 31));
    assert!(!run_holds(16, &bits, 32));
    assert!(!run_holds(16, &bits, 15));
    assert!(!run_holds(16, &bits, 0));
    assert!(!run_holds(0, &[], 0));
}

#[test]
fn highest_set_finds_the_last_set_bit() {
    assert_eq!(highest_set(0, &[]), None);
    assert_eq!(highest_set(0, &[0, 0, 0]), None);
    assert_eq!(highest_set(0, &[0x80]), Some(0));
    assert_eq!(highest_set(0, &[0xff]), Some(7));
    assert_eq!(highest_set(16, &[0b1010_0000, 0]), Some(18));
    assert_eq!(highest_set(16, &[0b1010_0000, 0b0000_0001]), Some(31));
    assert_eq!(highest_set(3, &[0, 0x40]), Some(12));
}

#[test]
fn highest_set_ignores_bits_beyond_the_last_index() {
    assert_eq!(highest_set(u64::MAX, &[0xff]), Some(u64::MAX));
    assert_eq!(highest_set(u64::MAX, &[0x7f]), None);
    assert_eq!(highest_set(u64::MAX - 2, &[0xff, 0xff]), Some(u64::MAX));
    assert_eq!(highest_set(u64::MAX - 2, &[0x1f, 0xff]), None);
    assert!(run_holds(u64::MAX - 2, &[0xff], u64::MAX));
}

#[test]
fn merging_keeps_what_was_known() {
    let mut remote = RemoteBitfield::new();
    assert!(!remote.has(0));
    remote.merge(0, vec![0b0100_0000]);
    assert!(remote.has(1));
    assert!(!remote.has(0));
    remote.merge(0, vec![0b1000_0000]);
    assert!(remote.has(0));
    assert!(remote.has(1));
    remote.merge(8192, vec![0, 0x01]);
    assert!(remote.has(8192 + 15));
    assert!(!remote.has(8192));
    assert!(remote.has(1));
}
