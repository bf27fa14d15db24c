use chip8::keypad::{key_at, Keypad, KEY_COUNT};

#[test]
fn new_keypad_has_no_key_down() {
    let k = Keypad::new();
    for key in 0..=255u8 {
        assert!(!k.is_down(key));
    }
    assert_eq!(k.first_down(), None);
}

#[test]
fn from_states_keeps_each_key() {
    let mut states = [false; KEY_COUNT];
    states[0] = true;
    states[7] = true;
    states[15] = true;
    let k = Keypad::from_states(states);
    for key in 0..16u8 {
        assert_eq!(k.is_down(key), key == 0 || key == 7 || key == 15);
    }
}

#[test]
fn keys_past_the_last_are_never_down() {
    let k = Keypad::from_states([true; KEY_COUNT]);
    assert!(k.is_down(15));
    assert!(!k.is_down(16));
    assert!(!k.is_down(0x1F));
    assert!(!k.is_down(255));
}

#[test]
fn first_down_is_the_lowest() {
    let mut states = [false; KEY_COUNT];
    states[9] = true;
    states[4] = true;
    states[12] = true;
    assert_eq!(Keypad::from_states(states).first_down(), Some(4));
    states[4] = false;
    assert_eq!(Keypad::from_states(states).first_down(), Some(9));
    states[0] = true;
    assert_eq!(Keypad::from_states(states).first_down(), Some(0));
    let mut last = [false; KEY_COUNT];
    last[15] = true;
    assert_eq!(Keypad::from_states(last).first_down(), Some(15));
}

#[test]
fn layout_of_the_host_keys() {
    let layout: [u8; 16] = [
        0x1, 0x2, 0x3, 0xC, 0x4, 0x5, 0x6, 0xD, 0x7, 0x8, 0x9, 0xE, 0xA, 0x0, 0xB, 0xF,
    ];
    for position in 0..KEY_COUNT {
        assert_eq!(key_at(position), layout[position]);
    }
}

#[test]
fn layout_uses_each_key_once() {
    let mut seen = [false; KEY_COUNT];
    for position in 0..KEY_COUNT {
        let key = key_at(position) as usize;
        assert!(!seen[key]);
        seen[key] = true;
    }
    assert!(seen.iter().all(|s| *s));
}

#[test]
fn from_physical_maps_each_position() {
    for position in 0..KEY_COUNT {
        let mut physical = [false; KEY_COUNT];
        physical[position] = true;
        let k = Keypad::from_physical(&physical);
        for key in 0..16u8 {
            assert_eq!(k.is_down(key), key == key_at(position));
        }
    }
}

#[test]
fn from_physical_x_key_is_zero() {
    let mut physical = [false; KEY_COUNT];
    physical[13] = true;
    let k = Keypad::from_physical(&physical);
    assert!(k.is_down(0));
    assert_eq!(k.first_down(), Some(0));
}

#[test]
fn from_physical_all_and_none() {
    let all = Keypad::from_physical(&[true; KEY_COUNT]);
    let none = Keypad::from_physical(&[false; KEY_COUNT]);
    for key in 0..16u8 {
        assert!(all.is_down(key));
        assert!(!none.is_down(key));
    }
}
