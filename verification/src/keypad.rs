//! The sixteen-key keypad: a snapshot of which keys are down.

use vstd::prelude::*;

verus! {

/// Number of keys; they are numbered from 0 to `KEY_COUNT - 1`.
pub const KEY_COUNT: usize = 16;

/// Whether key `key` is down in `keys`. A number that names no key is never
/// down.
pub open spec fn is_down_in(keys: Seq<bool>, key: int) -> bool {
    0 <= key < keys.len() && keys[key]
}

/// The lowest key at or above `from` that is down in `keys`, if any.
pub open spec fn lowest_down_from(keys: Seq<bool>, from: int) -> Option<u8>
    decreases keys.len() - from,
{
    if from < 0 || from >= keys.len() {
        None
    } else if keys[from] {
        Some(from as u8)
    } else {
        lowest_down_from(keys, from + 1)
    }
}

/// The lowest key that is down in `keys`, if any.
pub open spec fn lowest_down(keys: Seq<bool>) -> Option<u8> {
    lowest_down_from(keys, 0)
}

/// The key that sits at `position` of the host's 4x4 block of keys,
/// counted row by row: `1 2 3 C / 4 5 6 D / 7 8 9 E / A 0 B F`. Every
/// position past the block counts as its last.
pub open spec fn key_at_position(position: int) -> u8 {
    if position == 0 {
        0x1
    } else if position == 1 {
        0x2
    } else if position == 2 {
        0x3
    } else if position == 3 {
        0xC
    } else if position == 4 {
        0x4
    } else if position == 5 {
        0x5
    } else if position == 6 {
        0x6
    } else if position == 7 {
        0xD
    } else if position == 8 {
        0x7
    } else if position == 9 {
        0x8
    } else if position == 10 {
        0x9
    } else if position == 11 {
        0xE
    } else if position == 12 {
        0xA
    } else if position == 13 {
        0x0
    } else if position == 14 {
        0xB
    } else {
        0xF
    }
}

/// `lowest_down_from` finds a key exactly when one is down at or above
/// `from`, and then it is the lowest such key.
pub proof fn lemma_lowest_down_from(keys: Seq<bool>, from: int)
    requires
        0 <= from,
        keys.len() <= 256,
    ensures
        match lowest_down_from(keys, from) {
            Some(k) => from <= k < keys.len() && keys[k as int] && forall|j: int|
                from <= j < k ==> !keys[j],
            None => forall|j: int| from <= j < keys.len() ==> !keys[j],
        },
    decreases keys.len() - from,
{
    if from < keys.len() && !keys[from] {
        lemma_lowest_down_from(keys, from + 1);
    }
}

/// The sixteen positions carry the sixteen keys, each once.
pub proof fn lemma_layout_is_permutation()
    ensures
        forall|p: int| 0 <= p < 16 ==> #[trigger] key_at_position(p) < 16,
        forall|p: int, q: int|
            0 <= p < 16 && 0 <= q < 16 && p != q ==> #[trigger] key_at_position(p)
                != #[trigger] key_at_position(q),
{
}

/// The state of the sixteen keys at one moment. Its view holds, at index
/// `k`, whether key `k` is down.
#[derive(Clone, Copy, Debug)]
pub struct Keypad {
    keys: [bool; KEY_COUNT],
}

impl View for Keypad {
    type V = Seq<bool>;

    closed spec fn view(&self) -> Seq<bool> {
        self.keys@
    }
}

/// The key at `position` of the host's block of keys.
pub fn key_at(position: usize) -> (key: u8)
    ensures
        key == key_at_position(position as int),
        key < KEY_COUNT,
{
    match position {
        0 => 0x1,
        1 => 0x2,
        2 => 0x3,
        3 => 0xC,
        4 => 0x4,
        5 => 0x5,
        6 => 0x6,
        7 => 0xD,
        8 => 0x7,
        9 => 0x8,
        10 => 0x9,
        11 => 0xE,
        12 => 0xA,
        13 => 0x0,
        14 => 0xB,
        _ => 0xF,
    }
}

impl Keypad {
    /// Every keypad has exactly `KEY_COUNT` keys.
    pub proof fn lemma_len(&self)
        ensures
            self@.len() == KEY_COUNT,
    {
    }

    /// A keypad with no key down.
    pub fn new() -> (k: Keypad)
        ensures
            k@ == Seq::new(KEY_COUNT as nat, |i: int| false),
    {
        let k = Keypad { keys: [false; KEY_COUNT] };
        assert(k@ =~= Seq::new(KEY_COUNT as nat, |i: int| false));
        k
    }

    /// A keypad on which key `k` is down exactly when `states[k]` is set.
    pub fn from_states(states: [bool; KEY_COUNT]) -> (k: Keypad)
        ensures
            k@ == states@,
    {
        Keypad { keys: states }
    }

    /// A keypad read off the host's block of keys: `physical[p]` tells
    /// whether the key at position `p` of the block is held.
    pub fn from_physical(physical: &[bool; KEY_COUNT]) -> (k: Keypad)
        ensures
            k@.len() == KEY_COUNT,
            forall|p: int| 0 <= p < KEY_COUNT ==> k@[key_at_position(p) as int] == physical@[p],
    {
        let mut keys: [bool; KEY_COUNT] = [false; KEY_COUNT];
        let mut p: usize = 0;
        while p < KEY_COUNT
            invariant
                p <= KEY_COUNT,
                forall|q: int| 0 <= q < p ==> keys@[key_at_position(q) as int] == physical@[q],
            decreases KEY_COUNT - p,
        {
            let key: u8 = key_at(p);
            keys[key as usize] = physical[p];
            p += 1;
        }
        Keypad { keys }
    }

    /// Whether key `key` is down.
    pub fn is_down(&self, key: u8) -> (b: bool)
        ensures
            b == is_down_in(self@, key as int),
    {
        (key as usize) < KEY_COUNT && self.keys[key as usize]
    }

    /// The lowest key that is down, if any.
    pub fn first_down(&self) -> (r: Option<u8>)
        ensures
            r == lowest_down(self@),
    {
        let mut k: u8 = 0;
        while k < 16
            invariant
                k <= 16,
                self@.len() == 16,
                lowest_down(self@) == lowest_down_from(self@, k as int),
            decreases 16 - k,
        {
            if self.keys[k as usize] {
                return Some(k);
            }
            k += 1;
        }
        None
    }
}

} // verus!
