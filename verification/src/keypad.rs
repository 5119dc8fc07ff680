use vstd::prelude::*;
use crate::fault::Fault;

verus! {

/// Number of logical keys.
pub const KEY_COUNT: usize = 16;

/// Host key code of the digit key `0`; the digits `0` to `9` are consecutive.
pub const KEYCODE_DIGIT_0: i32 = 48;

/// Host key code of the letter key `a`; the letters `a` to `f` are consecutive.
pub const KEYCODE_LETTER_A: i32 = 97;

/// The logical key that a host key code stands for, if any: the digit keys
/// are keys 0x0 to 0x9, the letters `a` to `f` are keys 0xA to 0xF.
pub open spec fn mapped_key(keycode: int) -> Option<int> {
    if KEYCODE_DIGIT_0 <= keycode <= KEYCODE_DIGIT_0 + 9 {
        Some(keycode - KEYCODE_DIGIT_0)
    } else if KEYCODE_LETTER_A <= keycode <= KEYCODE_LETTER_A + 5 {
        Some(keycode - KEYCODE_LETTER_A + 10)
    } else {
        None
    }
}

/// Key levels after the host key `keycode` went down (`pressed`) or up.
pub open spec fn keys_after(keys: Seq<bool>, keycode: int, pressed: bool) -> Seq<bool> {
    match mapped_key(keycode) {
        Some(key) => keys.update(key, pressed),
        None => keys,
    }
}

/// The lowest pressed key, or 16 when no key is pressed.
pub open spec fn lowest_pressed(keys: Seq<bool>) -> int
    recommends
        keys.len() == KEY_COUNT,
{
    lowest_pressed_from(keys, 0)
}

/// The lowest pressed key at or above `from`, or 16 when there is none.
pub open spec fn lowest_pressed_from(keys: Seq<bool>, from: int) -> int
    decreases KEY_COUNT - from,
{
    if from < 0 || from >= KEY_COUNT {
        KEY_COUNT as int
    } else if keys[from] {
        from
    } else {
        lowest_pressed_from(keys, from + 1)
    }
}

/// `lowest_pressed_from` gives a key at or above `from` that is down and
/// has no key down between `from` and itself, or 16 when every key from
/// `from` on is up.
pub proof fn lemma_lowest_pressed_from(keys: Seq<bool>, from: int)
    requires
        0 <= from <= KEY_COUNT,
    ensures
        from <= lowest_pressed_from(keys, from) <= KEY_COUNT,
        lowest_pressed_from(keys, from) < KEY_COUNT ==> keys[lowest_pressed_from(keys, from)],
        forall|k: int| from <= k < lowest_pressed_from(keys, from) ==> !keys[k],
    decreases KEY_COUNT - from,
{
    if from < KEY_COUNT && !keys[from] {
        lemma_lowest_pressed_from(keys, from + 1);
    }
}

/// Lowest index wins: `lowest_pressed` is a key that is down with every
/// lower key up, or 16 when all keys are up.
pub proof fn lemma_lowest_pressed(keys: Seq<bool>)
    ensures
        0 <= lowest_pressed(keys) <= KEY_COUNT,
        lowest_pressed(keys) < KEY_COUNT ==> keys[lowest_pressed(keys)],
        forall|k: int| 0 <= k < lowest_pressed(keys) ==> !keys[k],
{
    lemma_lowest_pressed_from(keys, 0);
}

/// Level state of the sixteen logical keys.
pub struct Keypad {
    keys: [bool; 16],
}

impl View for Keypad {
    type V = Seq<bool>;

    closed spec fn view(&self) -> Seq<bool> {
        self.keys@
    }
}

impl Keypad {
    /// Key levels with every key up.
    pub open spec fn new_keys() -> Seq<bool> {
        Seq::new(KEY_COUNT as nat, |i: int| false)
    }

    /// A keypad with every key up.
    pub fn new() -> (keypad: Keypad)
        ensures
            keypad@ == Keypad::new_keys(),
    {
        Keypad { keys: [false; 16] }
    }

    /// The view always holds one level per key.
    pub broadcast proof fn lemma_len(&self)
        ensures
            #[trigger] self@.len() == KEY_COUNT,
    {
    }

    /// Whether logical key `key` is down. Keys above 0xF do not exist.
    pub fn is_key_pressed(&self, key: u8) -> (result: Result<bool, Fault>)
        ensures
            key < KEY_COUNT ==> result == Ok::<bool, Fault>(self@[key as int]),
            key >= KEY_COUNT ==> result == Err::<bool, Fault>((Fault::UnknownKey { key })),
    {
        let index = key as usize;
        if index >= KEY_COUNT {
            return Err(Fault::UnknownKey { key });
        }
        Ok(self.keys[index])
    }

    /// Records that the host key `keycode` went down. Unmapped keys are ignored.
    pub fn press_key(&mut self, keycode: i32)
        ensures
            final(self)@ == keys_after(old(self)@, keycode as int, true),
    {
        if let Some(key) = Keypad::map_keycode(keycode) {
            self.keys[key] = true;
        }
    }

    /// Records that the host key `keycode` went up. Unmapped keys are ignored.
    pub fn release_key(&mut self, keycode: i32)
        ensures
            final(self)@ == keys_after(old(self)@, keycode as int, false),
    {
        if let Some(key) = Keypad::map_keycode(keycode) {
            self.keys[key] = false;
        }
    }

    /// The lowest-indexed key that is down, if any.
    pub fn first_pressed(&self) -> (result: Option<u8>)
        ensures
            result == if lowest_pressed(self@) < KEY_COUNT {
                Some(lowest_pressed(self@) as u8)
            } else {
                None
            },
    {
        let mut found: Option<u8> = None;
        let mut index: usize = 16;
        while index > 0
            invariant
                0 <= index <= 16,
                self@.len() == KEY_COUNT,
                index <= lowest_pressed_from(self@, index as int) <= KEY_COUNT,
                found == if lowest_pressed_from(self@, index as int) < KEY_COUNT {
                    Some(lowest_pressed_from(self@, index as int) as u8)
                } else {
                    None
                },
            decreases index,
        {
            index -= 1;
            if self.keys[index] {
                found = Some(index as u8);
            }
        }
        found
    }

    fn map_keycode(keycode: i32) -> (key: Option<usize>)
        ensures
            match mapped_key(keycode as int) {
                Some(k) => key == Some(k as usize) && 0 <= k < KEY_COUNT,
                None => key.is_none(),
            },
    {
        if KEYCODE_DIGIT_0 <= keycode && keycode <= KEYCODE_DIGIT_0 + 9 {
            Some((keycode - KEYCODE_DIGIT_0) as usize)
        } else if KEYCODE_LETTER_A <= keycode && keycode <= KEYCODE_LETTER_A + 5 {
            Some((keycode - KEYCODE_LETTER_A + 10) as usize)
        } else {
            None
        }
    }
}

} // verus!
