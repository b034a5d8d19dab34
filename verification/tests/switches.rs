use nkro_hid::keeb::{get_switch_state, update_state, SWITCH_COUNT};

#[test]
fn switch_state_reads_one_bit() {
    let state: u32 = 0b101;
    assert!(get_switch_state(state, 0));
    assert!(!get_switch_state(state, 1));
    assert!(get_switch_state(state, 2));
    assert!(!get_switch_state(state, 20));
}

#[test]
fn all_reads_ok_sets_every_switch_bit() {
    let reads: Vec<bool> = vec![true; SWITCH_COUNT];
    let s = update_state(0, &reads);
    assert_eq!(s, 0x1F_FFFF);
    for i in 0..SWITCH_COUNT as u8 {
        assert!(get_switch_state(s, i));
    }
}

#[test]
fn failed_read_clears_everything_recorded_so_far() {
    let mut reads: Vec<bool> = vec![true; SWITCH_COUNT];
    reads[5] = false;
    let s = update_state(0, &reads);
    // Switches 0..=4 were wiped by the failed read; 6..=20 were set after it.
    for i in 0..5u8 {
        assert!(!get_switch_state(s, i));
    }
    assert!(!get_switch_state(s, 5));
    for i in 6..SWITCH_COUNT as u8 {
        assert!(get_switch_state(s, i));
    }
}

#[test]
fn only_bits_after_the_last_failed_read_survive() {
    let mut reads: Vec<bool> = vec![false; SWITCH_COUNT];
    for i in 0..SWITCH_COUNT {
        reads[i] = i % 2 == 0;
    }
    let s = update_state(0, &reads);
    assert_eq!(s, 1 << 20);
}

#[test]
fn update_folds_into_an_existing_field() {
    let reads: Vec<bool> = vec![true; SWITCH_COUNT];
    let s = update_state(1 << 25, &reads);
    assert_eq!(s, (1 << 25) | 0x1F_FFFF);
}
