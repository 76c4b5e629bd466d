//! The value an input source hands the processor each step: the sixteen
//! key states, and a separate termination request.

use vstd::prelude::*;
use crate::machine::NUM_KEYS;

verus! {

/// A full keypad reading: one pressed flag per key, plus whether the user
/// asked to stop.
pub struct Keypad {
    pub keys: Vec<bool>,
    pub terminate: bool,
}

impl Keypad {
    /// A reading with no key pressed and no termination request.
    pub fn new() -> (r: Keypad)
        ensures
            r.keys@.len() == NUM_KEYS,
            forall|i: int| 0 <= i < NUM_KEYS ==> !r.keys@[i],
            !r.terminate,
    {
        let mut keys: Vec<bool> = Vec::new();
        let mut k: usize = 0;
        while k < NUM_KEYS
            invariant
                k <= NUM_KEYS,
                keys@.len() == k,
                forall|i: int| 0 <= i < k ==> !keys@[i],
            decreases NUM_KEYS - k,
        {
            keys.push(false);
            k += 1;
        }
        Keypad { keys, terminate: false }
    }
}

} // verus!
