use chip8::keyboard::{HostKey, Keyboard};

const LAYOUT: [(HostKey, u8); 16] = [
    (HostKey::Key1, 0x1),
    (HostKey::Key2, 0x2),
    (HostKey::Key3, 0x3),
    (HostKey::Key4, 0xC),
    (HostKey::Q, 0x4),
    (HostKey::W, 0x5),
    (HostKey::E, 0x6),
    (HostKey::R, 0xD),
    (HostKey::A, 0x7),
    (HostKey::S, 0x8),
    (HostKey::D, 0x9),
    (HostKey::F, 0xE),
    (HostKey::Z, 0xA),
    (HostKey::X, 0x0),
    (HostKey::C, 0xB),
    (HostKey::V, 0xF),
];

#[test]
fn every_key_of_the_block_has_its_keypad_value() {
    for (key, code) in LAYOUT {
        assert_eq!(key.code(), Some(code));
    }
}

#[test]
fn the_block_covers_the_keypad_once() {
    let mut seen = [false; 16];
    for (key, _) in LAYOUT {
        let code = key.code().unwrap() as usize;
        assert!(!seen[code]);
        seen[code] = true;
    }
    assert!(seen.iter().all(|s| *s));
}

#[test]
fn a_key_outside_the_block_has_no_keypad_value() {
    assert_eq!(HostKey::Other.code(), None);
}

#[test]
fn a_new_keyboard_holds_no_key() {
    let keyboard = Keyboard::new();
    for key in 0..=255u8 {
        assert!(!keyboard.is_pressed(key));
    }
    assert!(!keyboard.awaiting_key_press);
    assert!(!keyboard.recieved_key_press);
    assert_eq!(keyboard.get_last_key_pressed(), 0);
}

#[test]
fn key_down_holds_the_keypad_value() {
    let mut keyboard = Keyboard::new();
    keyboard.on_key_down(&HostKey::Key4);
    assert!(keyboard.is_pressed(0xC));
    assert!(!keyboard.is_pressed(0x4));
    keyboard.on_key_down(&HostKey::X);
    assert!(keyboard.is_pressed(0x0));
    assert!(keyboard.is_pressed(0xC));
}

#[test]
fn key_up_lets_go_of_the_keypad_value() {
    let mut keyboard = Keyboard::new();
    keyboard.on_key_down(&HostKey::Q);
    keyboard.on_key_down(&HostKey::W);
    keyboard.on_key_up(&HostKey::Q);
    assert!(!keyboard.is_pressed(0x4));
    assert!(keyboard.is_pressed(0x5));
}

#[test]
fn a_key_outside_the_block_is_ignored() {
    let mut keyboard = Keyboard::new();
    keyboard.awaiting_key_press = true;
    keyboard.on_key_down(&HostKey::Other);
    keyboard.on_key_up(&HostKey::Other);
    for key in 0..16u8 {
        assert!(!keyboard.is_pressed(key));
    }
    assert!(keyboard.awaiting_key_press);
    assert!(!keyboard.recieved_key_press);
}

#[test]
fn key_up_ends_a_wait_with_the_released_key() {
    let mut keyboard = Keyboard::new();
    keyboard.awaiting_key_press = true;
    keyboard.on_key_up(&HostKey::F);
    assert!(!keyboard.awaiting_key_press);
    assert!(keyboard.recieved_key_press);
    assert_eq!(keyboard.get_last_key_pressed(), 0xE);
}

#[test]
fn key_down_does_not_end_a_wait() {
    let mut keyboard = Keyboard::new();
    keyboard.awaiting_key_press = true;
    keyboard.on_key_down(&HostKey::F);
    assert!(keyboard.awaiting_key_press);
    assert!(!keyboard.recieved_key_press);
    assert!(keyboard.is_pressed(0xE));
}

#[test]
fn key_up_without_a_wait_records_no_key() {
    let mut keyboard = Keyboard::new();
    keyboard.on_key_down(&HostKey::V);
    keyboard.on_key_up(&HostKey::V);
    assert!(!keyboard.recieved_key_press);
    assert_eq!(keyboard.get_last_key_pressed(), 0);
}
