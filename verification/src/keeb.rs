//! Switch-state bookkeeping for the scan loop.
//!
//! The physical pins live with the hardware layer; this module holds the
//! pure part: a 32-bit field with one bit per physical switch, updated from
//! the outcome of each pin read and queried per switch.

use vstd::prelude::*;

verus! {

/// Number of physical switches on one board half.
pub const SWITCH_COUNT: usize = 21;

/// Whether the switch at the given index is recorded as down in the field.
pub fn get_switch_state(state: u32, switch: u8) -> (pressed: bool)
    requires
        switch < 32,
    ensures
        pressed == (state & (1u32 << switch) != 0),
{
    state & (1u32 << switch) != 0
}

/// One pin read folded into the field: a successful read marks the switch
/// as down; a failed read clears the whole field.
pub open spec fn apply_read(state: u32, switch: u8, read_ok: bool) -> u32 {
    if read_ok {
        state | (1u32 << switch)
    } else {
        0
    }
}

/// The field after folding in the reads of the switches from index `i` on,
/// one switch per element, in index order.
pub open spec fn fold_reads_from(state: u32, reads: Seq<bool>, i: int) -> u32
    decreases reads.len() - i,
{
    if i < 0 || i >= reads.len() {
        state
    } else {
        fold_reads_from(apply_read(state, i as u8, reads[i]), reads, i + 1)
    }
}

/// Fold one scan's pin reads into the state field, switch by switch:
/// `reads[i]` says whether reading the pin of switch `i` succeeded.
pub fn update_state(state: u32, reads: &Vec<bool>) -> (s: u32)
    requires
        reads.len() == SWITCH_COUNT,
    ensures
        s == fold_reads_from(state, reads@, 0),
{
    let mut s = state;
    let mut i: usize = 0;
    while i < SWITCH_COUNT
        invariant
            i <= SWITCH_COUNT,
            reads.len() == SWITCH_COUNT,
            fold_reads_from(state, reads@, 0) == fold_reads_from(s, reads@, i as int),
        decreases SWITCH_COUNT - i,
    {
        if reads[i] {
            s = s | (1u32 << (i as u8));
        } else {
            s = 0;
        }
        i = i + 1;
    }
    s
}

} // verus!
