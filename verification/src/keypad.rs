//! The input capability: sixteen keys, each either pressed or released.
//! The interpreter only reads it; a front end drives `press`.

use vstd::prelude::*;

verus! {

/// State of the 16-key keypad. The view is the sequence of the 16 key
/// states, `true` meaning pressed.
pub struct Keypad {
    keys: Vec<bool>,
}

impl View for Keypad {
    type V = Seq<bool>;

    closed spec fn view(&self) -> Seq<bool> {
        self.keys@
    }
}

/// The index of the first pressed key in `keys`, if any: the key that a
/// blocking key-wait captures.
pub open spec fn spec_first_pressed(keys: Seq<bool>) -> Option<u8>
    decreases keys.len(),
{
    if keys.len() == 0 {
        None
    } else if keys[0] {
        Some(0u8)
    } else {
        match spec_first_pressed(keys.skip(1)) {
            Some(k) => Some((k + 1) as u8),
            None => None,
        }
    }
}

impl Keypad {
    pub open spec fn wf(&self) -> bool {
        self@.len() == 16
    }

    /// A keypad with every key released.
    pub fn new() -> (r: Keypad)
        ensures
            r.wf(),
            forall|k: int| 0 <= k < 16 ==> !r@[k],
    {
        Keypad { keys: vec![false; 16] }
    }

    /// Whether key `key` is currently pressed.
    pub fn pressed(&self, key: usize) -> (r: bool)
        requires
            self.wf(),
            key < 16,
        ensures
            r == self@[key as int],
    {
        self.keys[key]
    }

    /// Press (`down == true`) or release (`down == false`) key `key`.
    pub fn press(&mut self, key: usize, down: bool)
        requires
            old(self).wf(),
            key < 16,
        ensures
            final(self).wf(),
            final(self)@ == old(self)@.update(key as int, down),
    {
        self.keys[key] = down;
    }

    /// The lowest-numbered pressed key, if any key is pressed at all.
    pub fn first_pressed(&self) -> (r: Option<u8>)
        requires
            self.wf(),
        ensures
            r == spec_first_pressed(self@),
    {
        let mut k: usize = 0;
        while k < 16
            invariant
                self.wf(),
                k <= 16,
                forall|j: int| 0 <= j < k ==> !self@[j],
            decreases 16 - k,
        {
            if self.keys[k] {
                proof {
                    lemma_first_pressed_at(self@, k as int);
                }
                return Some(k as u8);
            }
            k += 1;
        }
        proof {
            lemma_first_pressed_none(self@);
        }
        None
    }
}

/// If every key below `k` is released and key `k` is pressed, then `k` is
/// the first pressed key.
pub proof fn lemma_first_pressed_at(keys: Seq<bool>, k: int)
    requires
        0 <= k < keys.len() <= 255,
        forall|j: int| 0 <= j < k ==> !keys[j],
        keys[k],
    ensures
        spec_first_pressed(keys) == Some(k as u8),
    decreases k,
{
    if k == 0 {
    } else {
        assert(!keys[0]);
        let tail = keys.skip(1);
        assert(forall|j: int| 0 <= j < k - 1 ==> !tail[j]);
        assert(tail[k - 1]);
        lemma_first_pressed_at(tail, k - 1);
    }
}

/// What the first pressed key means: when it exists it is a pressed key
/// with every lower-numbered key released, and when it does not, no key is
/// pressed at all.
pub proof fn lemma_first_pressed_is_lowest(keys: Seq<bool>)
    requires
        keys.len() <= 255,
    ensures
        spec_first_pressed(keys) matches Some(k) ==> 0 <= k < keys.len() && keys[k as int] && (
        forall|j: int| 0 <= j < k ==> !keys[j]),
        spec_first_pressed(keys) is None ==> forall|j: int| 0 <= j < keys.len() ==> !keys[j],
    decreases keys.len(),
{
    if keys.len() > 0 && !keys[0] {
        let tail = keys.skip(1);
        lemma_first_pressed_is_lowest(tail);
        if let Some(k) = spec_first_pressed(tail) {
            assert(keys[k + 1] == tail[k as int]);
            assert(forall|j: int| 1 <= j < k + 1 ==> !keys[j] == !tail[j - 1]);
        } else {
            assert(forall|j: int| 1 <= j < keys.len() ==> !keys[j] == !tail[j - 1]);
        }
    }
}

/// If no key is pressed, there is no first pressed key.
pub proof fn lemma_first_pressed_none(keys: Seq<bool>)
    requires
        forall|j: int| 0 <= j < keys.len() ==> !keys[j],
    ensures
        spec_first_pressed(keys) == None::<u8>,
    decreases keys.len(),
{
    if keys.len() > 0 {
        lemma_first_pressed_none(keys.skip(1));
    }
}

} // verus!
