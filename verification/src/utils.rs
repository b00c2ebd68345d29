//! Small helpers of the game loop.

use device_query::Keycode;
use vstd::prelude::*;

verus! {

/// The key that counts as the input of a frame: the first of the keys held
/// down, and none where no key is held.
pub fn read_input(keys: &Vec<Keycode>) -> (input: Option<Keycode>)
    ensures
        input == (if keys@.len() != 0 {
            Some(keys@[0])
        } else {
            None
        }),
{
    if keys.len() != 0 {
        Some(keys[0])
    } else {
        None
    }
}

} // verus!
