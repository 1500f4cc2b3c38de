//! Layout of the clock prescaler control word.
//!
//! | bits | field                                   |
//! |------|-----------------------------------------|
//! | 7    | change enable: unlocks the select field |
//! | 6:4  | reserved, always written as zero        |
//! | 3:0  | select code of the division factor      |

use crate::divisor::{lemma_of_select_code, ClockDivisor, MAX_SELECT_CODE};
use vstd::prelude::*;

verus! {

/// The change-enable flag.  Written alone, it opens the short window in
/// which the select field accepts a new code.
pub const CHANGE_ENABLE: u8 = 0x80;

/// The bits of the select field.
pub const SELECT_MASK: u8 = 0x0F;

/// The reserved bits.
pub const RESERVED_MASK: u8 = 0x70;

/// Whether the change-enable flag is set in `word`.
pub open spec fn spec_change_enabled(word: u8) -> bool {
    word & CHANGE_ENABLE != 0
}

/// The select code held in the low four bits of `word`.
pub open spec fn spec_select_field(word: u8) -> u8 {
    word & SELECT_MASK
}

/// Whether `word` leaves the reserved bits at zero.
pub open spec fn spec_reserved_clear(word: u8) -> bool {
    word & RESERVED_MASK == 0
}

/// The word that commits divisor `d`: its select code, with the
/// change-enable flag and the reserved bits at zero.
pub open spec fn spec_commit_word(d: ClockDivisor) -> u8 {
    d.spec_select_code()
}

/// The divisor that `word` selects once it is stored in the register:
/// none while a change is pending or where its code is reserved.
pub open spec fn spec_selected_divisor(word: u8) -> Option<ClockDivisor> {
    if spec_change_enabled(word) {
        None
    } else {
        ClockDivisor::of_select_code(spec_select_field(word))
    }
}

/// Whether the change-enable flag is set in `word`.
#[verifier::when_used_as_spec(spec_change_enabled)]
pub fn change_enabled(word: u8) -> (set: bool)
    ensures
        set == spec_change_enabled(word),
{
    word & CHANGE_ENABLE != 0
}

/// The select code held in the low four bits of `word`.
#[verifier::when_used_as_spec(spec_select_field)]
pub fn select_field(word: u8) -> (code: u8)
    ensures
        code == spec_select_field(word),
        code <= SELECT_MASK,
{
    proof {
        assert(word & 0x0F <= 0x0F) by (bit_vector);
    }
    word & SELECT_MASK
}

/// Whether `word` leaves the reserved bits at zero.
#[verifier::when_used_as_spec(spec_reserved_clear)]
pub fn reserved_clear(word: u8) -> (clear: bool)
    ensures
        clear == spec_reserved_clear(word),
{
    word & RESERVED_MASK == 0
}

/// Builds the word that commits divisor `d`.
#[verifier::when_used_as_spec(spec_commit_word)]
pub fn commit_word(d: ClockDivisor) -> (word: u8)
    ensures
        word == spec_commit_word(d),
        !spec_change_enabled(word),
        spec_reserved_clear(word),
        spec_select_field(word) == d.spec_select_code(),
{
    proof {
        lemma_commit_word_layout(d);
    }
    d.select_code()
}

/// Decodes the divisor that a stored word selects.
#[verifier::when_used_as_spec(spec_selected_divisor)]
pub fn selected_divisor(word: u8) -> (selected: Option<ClockDivisor>)
    ensures
        selected == spec_selected_divisor(word),
        selected is Some <==> !spec_change_enabled(word) && spec_select_field(word)
            <= MAX_SELECT_CODE,
        selected matches Some(d) ==> d.spec_select_code() == spec_select_field(word),
{
    if change_enabled(word) {
        None
    } else {
        ClockDivisor::from_select_code(select_field(word))
    }
}

/// The committing word of a divisor carries its select code in the low
/// four bits and nothing else: change enable and the reserved bits are zero.
pub proof fn lemma_commit_word_layout(d: ClockDivisor)
    ensures
        !spec_change_enabled(spec_commit_word(d)),
        spec_reserved_clear(spec_commit_word(d)),
        spec_select_field(spec_commit_word(d)) == d.spec_select_code(),
        spec_selected_divisor(spec_commit_word(d)) == Some(d),
{
    let word = spec_commit_word(d);
    assert(word <= 8);
    assert(word & 0x80 == 0 && word & 0x70 == 0 && word & 0x0F == word) by (bit_vector)
        requires
            word <= 8,
    ;
    lemma_of_select_code(word);
}

/// The change-enable word sets the flag and clears every other bit.
pub proof fn lemma_change_enable_word_layout()
    ensures
        spec_change_enabled(CHANGE_ENABLE),
        spec_reserved_clear(CHANGE_ENABLE),
        spec_select_field(CHANGE_ENABLE) == 0,
        spec_selected_divisor(CHANGE_ENABLE) is None,
{
    assert(0x80u8 & 0x80 == 0x80 && 0x80u8 & 0x70 == 0 && 0x80u8 & 0x0F == 0) by (bit_vector);
}

} // verus!
