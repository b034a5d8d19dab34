use nkro_hid::hid::{classify, report_descriptor, KeyCategory, NKROReport};

fn build(codes: &[u8]) -> Vec<u8> {
    let v: Vec<u8> = codes.to_vec();
    let r = NKROReport::from_codes(&v);
    r.as_bytes().to_vec()
}

#[test]
fn empty_pressed_set_is_all_zero() {
    let bytes = build(&[]);
    assert_eq!(bytes.len(), 21);
    assert!(bytes.iter().all(|&b| b == 0));
}

#[test]
fn no_op_sentinel_changes_nothing() {
    let bytes = build(&[0, 0, 0]);
    assert!(bytes.iter().all(|&b| b == 0));
}

#[test]
fn modifier_and_two_ordinary_keys() {
    // A modifier with offset 0, plus ordinary usages 4 and 5.
    let bytes = build(&[0xE0, 4, 5]);
    assert_eq!(bytes[0], 0b0000_0001);
    assert_eq!(bytes[1], 0);
    assert_eq!(&bytes[2..8], &[4, 5, 0, 0, 0, 0]);
    // Bitmap bits 0 and 1 (usages 4 and 5), nothing else.
    assert_eq!(bytes[8], 0b0000_0011);
    assert!(bytes[9..21].iter().all(|&b| b == 0));
}

#[test]
fn each_modifier_sets_exactly_its_bit() {
    for k in 0u8..8 {
        let bytes = build(&[0xE0 + k]);
        assert_eq!(bytes[0], 1 << k);
        assert!(bytes[1..21].iter().all(|&b| b == 0));
    }
}

#[test]
fn six_ordinary_keys_fill_boot_in_press_order() {
    let bytes = build(&[9, 4, 7, 6, 5, 8]);
    assert_eq!(&bytes[2..8], &[9, 4, 7, 6, 5, 8]);
    assert_eq!(bytes[0], 0);
    // Usages 4..=9 are bitmap bits 0..=5.
    assert_eq!(bytes[8], 0b0011_1111);
    assert!(bytes[9..21].iter().all(|&b| b == 0));
}

#[test]
fn seven_ordinary_keys_roll_over_boot_but_keep_bitmap() {
    let bytes = build(&[4, 5, 6, 7, 8, 9, 10]);
    // All six boot slots hold the roll-over error usage.
    assert_eq!(&bytes[2..8], &[1, 1, 1, 1, 1, 1]);
    // All seven bitmap bits are nonetheless set (bits 0..=6).
    assert_eq!(bytes[8], 0b0111_1111);
    assert!(bytes[9..21].iter().all(|&b| b == 0));
}

#[test]
fn modifier_survives_boot_roll_over() {
    let bytes = build(&[0xE1, 4, 5, 6, 7, 8, 9, 10]);
    assert_eq!(bytes[0], 0b0000_0010);
    assert_eq!(&bytes[2..8], &[1, 1, 1, 1, 1, 1]);
    assert_eq!(bytes[8], 0b0111_1111);
}

#[test]
fn error_code_overwrites_boot_and_keeps_bitmap() {
    // Two keys recorded, then the post-fail error code.
    let bytes = build(&[4, 5, 2]);
    assert_eq!(&bytes[2..8], &[2, 2, 2, 2, 2, 2]);
    assert_eq!(bytes[8], 0b0000_0011);
    assert_eq!(bytes[0], 0);
    assert_eq!(bytes[1], 0);
}

#[test]
fn error_code_applies_at_any_point_of_a_build() {
    // The error floods the boot array mid-build; the key after it finds no
    // empty slot and triggers the roll-over flood.
    let bytes = build(&[4, 3, 5]);
    assert_eq!(&bytes[2..8], &[1, 1, 1, 1, 1, 1]);
    // Both ordinary keys still reached the bitmap.
    assert_eq!(bytes[8], 0b0000_0011);
}

#[test]
fn out_of_range_values_set_no_bitmap_bit() {
    // Usage 200 is ordinary but above the bitmap capacity: boot slots only.
    let bytes = build(&[200, 200, 200]);
    assert_eq!(&bytes[2..8], &[200, 200, 200, 0, 0, 0]);
    assert!(bytes[8..21].iter().all(|&b| b == 0));
}

#[test]
fn bitmap_capacity_boundary() {
    // Usage 103 owns the last mapped bit: position 99, byte 20, bit 3.
    let bytes = build(&[103]);
    assert_eq!(&bytes[2..8], &[103, 0, 0, 0, 0, 0]);
    assert_eq!(bytes[20], 0b0000_1000);
    assert!(bytes[8..20].iter().all(|&b| b == 0));
    // Usage 104 is at the capacity: a boot slot but no bitmap bit.
    let bytes = build(&[104]);
    assert_eq!(&bytes[2..8], &[104, 0, 0, 0, 0, 0]);
    assert!(bytes[8..21].iter().all(|&b| b == 0));
}

#[test]
fn duplicate_codes_take_two_boot_slots() {
    // No deduplication: the same value pressed twice takes two slots.
    let bytes = build(&[4, 4]);
    assert_eq!(&bytes[2..8], &[4, 4, 0, 0, 0, 0]);
    assert_eq!(bytes[8], 0b0000_0001);
}

#[test]
fn same_pressed_set_builds_identical_reports() {
    let codes: Vec<u8> = vec![0xE0, 4, 5, 200, 10];
    let a = NKROReport::from_codes(&codes);
    let b = NKROReport::from_codes(&codes);
    assert_eq!(a.as_bytes(), b.as_bytes());
}

#[test]
fn pressed_incorporates_one_key_at_a_time() {
    let mut r = NKROReport::new();
    r.pressed(0xE7);
    r.pressed(30);
    let bytes = r.as_bytes();
    assert_eq!(bytes[0], 0b1000_0000);
    assert_eq!(bytes[2], 30);
    // Usage 30 is bitmap position 26: byte 11, bit 2.
    assert_eq!(bytes[11], 0b0000_0100);
}

#[test]
fn classification_is_a_closed_dispatch() {
    assert_eq!(classify(0), KeyCategory::NoKey);
    assert_eq!(classify(1), KeyCategory::GlobalError(1));
    assert_eq!(classify(2), KeyCategory::GlobalError(2));
    assert_eq!(classify(3), KeyCategory::GlobalError(3));
    assert_eq!(classify(4), KeyCategory::Ordinary(4));
    assert_eq!(classify(0xDF), KeyCategory::Ordinary(0xDF));
    assert_eq!(classify(0xE0), KeyCategory::Modifier(0));
    assert_eq!(classify(0xE7), KeyCategory::Modifier(7));
    assert_eq!(classify(0xE8), KeyCategory::Ordinary(0xE8));
    assert_eq!(classify(0xFF), KeyCategory::Ordinary(0xFF));
}

#[test]
fn report_descriptor_is_the_fixed_artifact() {
    let d = report_descriptor();
    assert_eq!(d.len(), 47);
    assert_eq!(&d[0..8], &[0x05, 0x01, 0x09, 0x06, 0xA1, 0x01, 0x85, 0x04]);
    assert_eq!(d[d.len() - 1], 0xC0);
    // The three input items: modifiers, constant padding, bitmap.
    assert_eq!(&d[22..24], &[0x81, 0x02]);
    assert_eq!(&d[28..30], &[0x81, 0x01]);
    assert_eq!(&d[44..46], &[0x81, 0x02]);
}

#[test]
fn default_report_is_empty() {
    let r = NKROReport::default();
    assert!(r.as_bytes().iter().all(|&b| b == 0));
}
