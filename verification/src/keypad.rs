use vstd::prelude::*;

use crate::semantics::any_key_pressed;
use crate::semantics::is_first_pressed;

verus! {

/// The 16-key input panel. The host sets and clears key states; the
/// interpreter only reads them.
pub struct Keypad {
    keys: Vec<bool>,
}

impl View for Keypad {
    type V = Seq<bool>;

    closed spec fn view(&self) -> Seq<bool> {
        self.keys@
    }
}

impl Keypad {
    /// A keypad always holds exactly 16 key states.
    pub open spec fn wf(&self) -> bool {
        self@.len() == 16
    }

    /// All 16 keys start released.
    pub fn new() -> (r: Keypad)
        ensures
            r.wf(),
            forall|k: int| 0 <= k < 16 ==> !r@[k],
    {
        let keys: Vec<bool> = vec![false; 16];
        Keypad { keys }
    }

    /// Record that key `key` is now pressed (`true`) or released (`false`).
    pub fn set_key(&mut self, key: u8, pressed: bool)
        requires
            old(self).wf(),
            key < 16,
        ensures
            final(self).wf(),
            final(self)@ == old(self)@.update(key as int, pressed),
    {
        self.keys[key as usize] = pressed;
    }

    /// Report whether key `key` is currently pressed.
    pub fn is_pressed(&self, key: u8) -> (r: bool)
        requires
            self.wf(),
            key < 16,
        ensures
            r == self@[key as int],
    {
        self.keys[key as usize]
    }

    /// Scan for the lowest-indexed pressed key, if any is pressed.
    pub fn first_pressed_key(&self) -> (r: Option<u8>)
        requires
            self.wf(),
        ensures
            match r {
                Some(k) => is_first_pressed(self@, k as int),
                None => !any_key_pressed(self@),
            },
    {
        let mut i: u8 = 0;
        while i < 16
            invariant
                self.wf(),
                i <= 16,
                forall|j: int| 0 <= j < i ==> !self@[j],
            decreases 16 - i,
        {
            if self.is_pressed(i) {
                return Some(i);
            }
            i = i + 1;
        }
        None
    }
}

} // verus!
