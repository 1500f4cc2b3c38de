use rustduino::divisor::ClockDivisor;
use rustduino::register::{
    change_enabled, commit_word, reserved_clear, select_field, selected_divisor, CHANGE_ENABLE,
    RESERVED_MASK, SELECT_MASK,
};

#[test]
fn masks_partition_the_word() {
    assert_eq!(CHANGE_ENABLE, 0x80);
    assert_eq!(RESERVED_MASK, 0x70);
    assert_eq!(SELECT_MASK, 0x0F);
    assert_eq!(CHANGE_ENABLE | RESERVED_MASK | SELECT_MASK, 0xFF);
    assert_eq!(CHANGE_ENABLE & RESERVED_MASK, 0);
    assert_eq!(CHANGE_ENABLE & SELECT_MASK, 0);
    assert_eq!(RESERVED_MASK & SELECT_MASK, 0);
}

#[test]
fn change_enable_word_sets_only_the_flag() {
    assert!(change_enabled(CHANGE_ENABLE));
    assert_eq!(select_field(CHANGE_ENABLE), 0);
    assert!(reserved_clear(CHANGE_ENABLE));
    assert_eq!(selected_divisor(CHANGE_ENABLE), None);
}

#[test]
fn fields_are_read_from_their_bits() {
    assert!(!change_enabled(0x7F));
    assert!(change_enabled(0x83));
    assert_eq!(select_field(0x83), 0x03);
    assert_eq!(select_field(0xF8), 0x08);
    assert!(reserved_clear(0x8F));
    assert!(!reserved_clear(0x10));
    assert!(!reserved_clear(0x40));
}

#[test]
fn commit_word_is_the_bare_select_code() {
    assert_eq!(commit_word(ClockDivisor::Div1), 0x00);
    assert_eq!(commit_word(ClockDivisor::Div8), 0x03);
    assert_eq!(commit_word(ClockDivisor::Div256), 0x08);
    for code in 0u8..=8 {
        let divisor = ClockDivisor::from_select_code(code).unwrap();
        let word = commit_word(divisor);
        assert!(!change_enabled(word));
        assert!(reserved_clear(word));
        assert_eq!(select_field(word), code);
        assert_eq!(selected_divisor(word), Some(divisor));
    }
}

#[test]
fn stored_words_decode_to_their_divisor() {
    assert_eq!(selected_divisor(0x00), Some(ClockDivisor::Div1));
    assert_eq!(selected_divisor(0x04), Some(ClockDivisor::Div16));
    assert_eq!(selected_divisor(0x08), Some(ClockDivisor::Div256));
    assert_eq!(selected_divisor(0x09), None);
    assert_eq!(selected_divisor(0x0F), None);
    assert_eq!(selected_divisor(0x83), None);
    // The reserved bits take no part in the selection.
    assert_eq!(selected_divisor(0x13), Some(ClockDivisor::Div8));
}
