use vstd::prelude::*;

verus! {

/// Number of keys on the hexadecimal keypad.
pub const KEY_COUNT: usize = 16;

/// The sixteen keys of the hexadecimal keypad, `true` while a key is held down.
pub struct Keypad {
    pub keys: [bool; KEY_COUNT],
}

/// A keypad state with no key held down.
pub open spec fn no_key_pressed() -> Seq<bool> {
    Seq::new(KEY_COUNT as nat, |k: int| false)
}

/// The lowest-numbered key at or after `from` that is held down in `keys`,
/// if there is one.
pub open spec fn first_pressed_from(keys: Seq<bool>, from: int) -> Option<u8>
    decreases KEY_COUNT - from,
{
    if from < 0 || from >= KEY_COUNT {
        None
    } else if keys[from] {
        Some(from as u8)
    } else {
        first_pressed_from(keys, from + 1)
    }
}

/// The lowest-numbered key that is held down in `keys`, if any.
pub open spec fn first_pressed_key(keys: Seq<bool>) -> Option<u8> {
    first_pressed_from(keys, 0)
}

/// `first_pressed_key` names a pressed key with no pressed key below it, and is
/// `None` exactly when no key is pressed.
pub proof fn lemma_first_pressed_key(keys: Seq<bool>)
    ensures
        match first_pressed_key(keys) {
            Some(k) => k < KEY_COUNT && keys[k as int] && forall|j: int|
                0 <= j < k ==> !#[trigger] keys[j],
            None => forall|j: int| 0 <= j < KEY_COUNT ==> !#[trigger] keys[j],
        },
{
    lemma_first_pressed_from(keys, 0);
}

proof fn lemma_first_pressed_from(keys: Seq<bool>, from: int)
    requires
        0 <= from <= KEY_COUNT,
    ensures
        match first_pressed_from(keys, from) {
            Some(k) => from <= k < KEY_COUNT && keys[k as int] && forall|j: int|
                from <= j < k ==> !#[trigger] keys[j],
            None => forall|j: int| from <= j < KEY_COUNT ==> !#[trigger] keys[j],
        },
    decreases KEY_COUNT - from,
{
    if from < KEY_COUNT {
        lemma_first_pressed_from(keys, from + 1);
    }
}

impl Keypad {
    /// A keypad with no key pressed.
    pub fn new() -> (k: Self)
        ensures
            k.keys@ == no_key_pressed(),
    {
        let k = Keypad { keys: [false; KEY_COUNT] };
        assert(k.keys@ =~= no_key_pressed());
        k
    }

    /// Records whether `key` is held down.
    pub fn set(&mut self, key: usize, pressed: bool)
        requires
            key < KEY_COUNT,
        ensures
            final(self).keys@ == old(self).keys@.update(key as int, pressed),
    {
        self.keys[key] = pressed;
    }

    /// Whether `key` is held down.
    pub fn is_pressed(&self, key: usize) -> (b: bool)
        requires
            key < KEY_COUNT,
        ensures
            b == self.keys@[key as int],
    {
        self.keys[key]
    }

    /// The lowest-numbered key that is held down, if any.
    pub fn first_pressed(&self) -> (r: Option<u8>)
        ensures
            r == first_pressed_key(self.keys@),
    {
        let mut k: usize = 0;
        while k < KEY_COUNT
            invariant
                k <= KEY_COUNT,
                first_pressed_key(self.keys@) == first_pressed_from(self.keys@, k as int),
            decreases KEY_COUNT - k,
        {
            if self.keys[k] {
                return Some(k as u8);
            }
            k += 1;
        }
        None
    }
}

impl Default for Keypad {
    fn default() -> (k: Self)
        ensures
            k.keys@ == no_key_pressed(),
    {
        Self::new()
    }
}

} // verus!
