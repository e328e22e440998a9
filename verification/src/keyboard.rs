use vstd::prelude::*;

verus! {

/// Number of logical keys of the input device.
pub const NUM_KEYS: usize = 16;

/// Input state: 16 boolean key flags plus a quit/cancel flag. The flags
/// reflect the latest known physical key state; the backend that produces
/// raw key events feeds them in through `key_event` and `request_quit`.
pub struct Keyboard {
    keys: Vec<bool>,
    pub quit_requested: bool,
}

/// Mathematical image of a `Keyboard`.
pub struct KeyboardView {
    pub keys: Seq<bool>,
    pub quit_requested: bool,
}

impl View for Keyboard {
    type V = KeyboardView;

    closed spec fn view(&self) -> KeyboardView {
        KeyboardView { keys: self.keys@, quit_requested: self.quit_requested }
    }
}

impl KeyboardView {
    pub open spec fn wf(self) -> bool {
        self.keys.len() == NUM_KEYS
    }
}

/// The logical key index a physical key maps to, if any. Physical keys are
/// identified by their keycode, which for the keys of interest is the ASCII
/// code of the lower-case character on the key.
pub open spec fn spec_key_index(code: i32) -> Option<u8> {
    if code == 'x' as i32 {
        Some(0x0u8)
    } else if code == '1' as i32 {
        Some(0x1u8)
    } else if code == '2' as i32 {
        Some(0x2u8)
    } else if code == '3' as i32 {
        Some(0x3u8)
    } else if code == 'q' as i32 {
        Some(0x4u8)
    } else if code == 'w' as i32 {
        Some(0x5u8)
    } else if code == 'e' as i32 {
        Some(0x6u8)
    } else if code == 'a' as i32 {
        Some(0x7u8)
    } else if code == 's' as i32 {
        Some(0x8u8)
    } else if code == 'd' as i32 {
        Some(0x9u8)
    } else if code == 'z' as i32 {
        Some(0xAu8)
    } else if code == 'c' as i32 {
        Some(0xBu8)
    } else if code == '4' as i32 {
        Some(0xCu8)
    } else if code == 'r' as i32 {
        Some(0xDu8)
    } else if code == 'f' as i32 {
        Some(0xEu8)
    } else if code == 'v' as i32 {
        Some(0xFu8)
    } else {
        None
    }
}

/// The lowest key index at or above `k` whose flag is down, if any.
pub open spec fn first_down_from(keys: Seq<bool>, k: int) -> Option<u8>
    decreases NUM_KEYS - k,
{
    if k < 0 || k >= NUM_KEYS {
        None
    } else if keys[k] {
        Some(k as u8)
    } else {
        first_down_from(keys, k + 1)
    }
}

impl Keyboard {
    /// Create a new input state: every key up, no quit requested.
    pub fn new() -> (kb: Keyboard)
        ensures
            kb@.wf(),
            kb@.quit_requested == false,
            forall|k: int| 0 <= k < NUM_KEYS ==> kb@.keys[k] == false,
    {
        let mut keys: Vec<bool> = Vec::new();
        let mut k: usize = 0;
        while k < NUM_KEYS
            invariant
                keys@.len() == k,
                k <= NUM_KEYS,
                forall|j: int| 0 <= j < k ==> keys@[j] == false,
            decreases NUM_KEYS - k,
        {
            keys.push(false);
            k = k + 1;
        }
        Keyboard { keys, quit_requested: false }
    }

    /// Whether the key with logical index `k` is currently down.
    pub fn is_down(&self, k: u8) -> (r: bool)
        requires
            self@.wf(),
            k < NUM_KEYS,
        ensures
            r == self@.keys[k as int],
    {
        self.keys[k as usize]
    }

    /// Record a physical key going down (`down == true`) or up. A key that
    /// maps to no logical index is ignored.
    pub fn key_event(&mut self, code: i32, down: bool)
        requires
            old(self)@.wf(),
        ensures
            final(self)@.wf(),
            final(self)@.quit_requested == old(self)@.quit_requested,
            match spec_key_index(code) {
                Some(i) => final(self)@.keys == old(self)@.keys.update(i as int, down),
                None => final(self)@.keys == old(self)@.keys,
            },
    {
        match key_index(code) {
            Some(i) => {
                self.keys[i as usize] = down;
            },
            None => {},
        }
    }

    /// Record a quit/cancel request from the backend.
    pub fn request_quit(&mut self)
        ensures
            final(self)@.keys == old(self)@.keys,
            final(self)@.quit_requested == true,
    {
        self.quit_requested = true;
    }

    /// The lowest-indexed key currently down, if any.
    pub fn first_key_down(&self) -> (r: Option<u8>)
        requires
            self@.wf(),
        ensures
            r == first_down_from(self@.keys, 0),
    {
        let mut k: usize = 0;
        while k < NUM_KEYS
            invariant
                self@.wf(),
                k <= NUM_KEYS,
                first_down_from(self@.keys, 0) == first_down_from(self@.keys, k as int),
            decreases NUM_KEYS - k,
        {
            if self.keys[k] {
                return Some(k as u8);
            }
            k = k + 1;
        }
        None
    }
}

/// The logical key index a physical keycode maps to, if any.
pub fn key_index(code: i32) -> (r: Option<u8>)
    ensures
        r == spec_key_index(code),
        r is Some ==> r->0 < NUM_KEYS,
{
    if code == 'x' as i32 {
        Some(0x0)
    } else if code == '1' as i32 {
        Some(0x1)
    } else if code == '2' as i32 {
        Some(0x2)
    } else if code == '3' as i32 {
        Some(0x3)
    } else if code == 'q' as i32 {
        Some(0x4)
    } else if code == 'w' as i32 {
        Some(0x5)
    } else if code == 'e' as i32 {
        Some(0x6)
    } else if code == 'a' as i32 {
        Some(0x7)
    } else if code == 's' as i32 {
        Some(0x8)
    } else if code == 'd' as i32 {
        Some(0x9)
    } else if code == 'z' as i32 {
        Some(0xA)
    } else if code == 'c' as i32 {
        Some(0xB)
    } else if code == '4' as i32 {
        Some(0xC)
    } else if code == 'r' as i32 {
        Some(0xD)
    } else if code == 'f' as i32 {
        Some(0xE)
    } else if code == 'v' as i32 {
        Some(0xF)
    } else {
        None
    }
}

} // verus!
