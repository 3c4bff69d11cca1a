//! Reading the keyboard state that the system reports.
use vstd::prelude::*;

verus! {

/// Whether a key is held down, from the state word that the asynchronous
/// key-state query returns for it: its most significant bit is set while the
/// key is down, which makes the word negative.
pub fn key_state_is_down(state: i16) -> (down: bool)
    ensures
        down == (state < 0),
        down == ((state as u16) & 0x8000u16 != 0u16),
{
    proof {
        assert(((state as u16) & 0x8000u16 != 0u16) == (state < 0)) by (bit_vector);
    }
    (state as u16 & 0x8000u16) != 0
}

} // verus!
