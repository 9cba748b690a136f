use vstd::prelude::*;

verus! {

/// Snapshot of the 16-key input device as the executor sees it: one
/// key-down flag per logical key code `0x0..=0xF`, and at most one pending
/// key press, consumed exactly once by the wait-for-key instruction.
///
/// The presentation/input backend owns the physical key state and fills
/// this snapshot in; the core only queries it.
pub struct Keypad {
    pub keys: Vec<bool>,
    pub pending: Option<u8>,
}

impl Keypad {
    /// Well-formedness: one flag per key, and a pending key, if any, names
    /// one of the 16 keys.
    pub open spec fn wf(self) -> bool {
        &&& self.keys@.len() == 16
        &&& (self.pending matches Some(k) ==> k < 16)
    }

    /// A keypad with no key down and no pending key.
    pub fn new() -> (kp: Keypad)
        ensures
            kp.wf(),
            forall|k: int| 0 <= k < 16 ==> !kp.keys@[k],
            kp.pending is None,
    {
        let mut keys: Vec<bool> = Vec::new();
        let mut j: usize = 0;
        while j < 16
            invariant
                j <= 16,
                keys@.len() == j,
                forall|k: int| 0 <= k < j ==> !keys@[k],
            decreases 16 - j,
        {
            keys.push(false);
            j = j + 1;
        }
        Keypad { keys, pending: None }
    }

    /// Record that the key named `key` went down or up.
    pub fn set_key(&mut self, key: u8, down: bool)
        requires
            old(self).wf(),
            key < 16,
        ensures
            final(self).wf(),
            final(self).keys@ == old(self).keys@.update(key as int, down),
            final(self).pending == old(self).pending,
    {
        self.keys[key as usize] = down;
    }

    /// Record a key press that the wait-for-key instruction may consume.
    pub fn set_pending(&mut self, key: u8)
        requires
            old(self).wf(),
            key < 16,
        ensures
            final(self).wf(),
            final(self).keys@ == old(self).keys@,
            final(self).pending == Some(key),
    {
        self.pending = Some(key);
    }

    /// Whether the key named `key` is currently down.
    pub fn is_key_down(&self, key: u8) -> (down: bool)
        requires
            self.wf(),
            key < 16,
        ensures
            down == self.keys@[key as int],
    {
        self.keys[key as usize]
    }
}

} // verus!
