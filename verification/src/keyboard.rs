use std::collections::HashSet;
use vstd::prelude::*;

verus! {

broadcast use vstd::std_specs::hash::group_hash_axioms;

/// A key of the host keyboard, as far as the keypad is concerned: the sixteen
/// keys of the 4x4 block `1234 / QWER / ASDF / ZXCV`, and `Other` for every
/// key outside it.
#[derive(Clone, Copy, PartialEq, Eq, Debug)]
pub enum HostKey {
    Key1,
    Key2,
    Key3,
    Key4,
    Q,
    W,
    E,
    R,
    A,
    S,
    D,
    F,
    Z,
    X,
    C,
    V,
    Other,
}

/// The keypad value that a host key stands for, if any. The block of host
/// keys mirrors the layout of the hexadecimal keypad:
///
/// ```text
/// 1 2 3 C
/// 4 5 6 D
/// 7 8 9 E
/// A 0 B F
/// ```
pub open spec fn key_code(key: HostKey) -> Option<u8> {
    match key {
        HostKey::Key1 => Some(0x1u8),
        HostKey::Key2 => Some(0x2u8),
        HostKey::Key3 => Some(0x3u8),
        HostKey::Key4 => Some(0xCu8),
        HostKey::Q => Some(0x4u8),
        HostKey::W => Some(0x5u8),
        HostKey::E => Some(0x6u8),
        HostKey::R => Some(0xDu8),
        HostKey::A => Some(0x7u8),
        HostKey::S => Some(0x8u8),
        HostKey::D => Some(0x9u8),
        HostKey::F => Some(0xEu8),
        HostKey::Z => Some(0xAu8),
        HostKey::X => Some(0x0u8),
        HostKey::C => Some(0xBu8),
        HostKey::V => Some(0xFu8),
        HostKey::Other => None,
    }
}

/// Every keypad value is a nibble.
pub proof fn law_key_codes_are_nibbles(key: HostKey)
    ensures
        key_code(key) matches Some(code) ==> code < 16,
{
}

impl HostKey {
    /// The keypad value that this host key stands for, if any.
    pub fn code(&self) -> (code: Option<u8>)
        ensures
            code == key_code(*self),
    {
        match self {
            HostKey::Key1 => Some(0x1),
            HostKey::Key2 => Some(0x2),
            HostKey::Key3 => Some(0x3),
            HostKey::Key4 => Some(0xC),
            HostKey::Q => Some(0x4),
            HostKey::W => Some(0x5),
            HostKey::E => Some(0x6),
            HostKey::R => Some(0xD),
            HostKey::A => Some(0x7),
            HostKey::S => Some(0x8),
            HostKey::D => Some(0x9),
            HostKey::F => Some(0xE),
            HostKey::Z => Some(0xA),
            HostKey::X => Some(0x0),
            HostKey::C => Some(0xB),
            HostKey::V => Some(0xF),
            HostKey::Other => None,
        }
    }
}

/// The keypad as the machine sees it.
pub struct KeyboardView {
    /// The keypad values that are held down.
    pub keys_down: Set<u8>,
    /// The machine is suspended until a key is released.
    pub awaiting_key_press: bool,
    /// A key was released while the machine was waiting, and the machine has
    /// not picked it up yet.
    pub recieved_key_press: bool,
    /// The keypad value of the key whose release ended the last wait.
    pub last_key_pressed: u8,
}

/// Where the machine stands in a wait for a key.
#[derive(Clone, Copy, PartialEq, Eq, Debug)]
pub enum WaitPhase {
    /// No wait is pending: instructions are fetched and executed.
    Running,
    /// The machine is suspended until a key of the keypad is released.
    AwaitingKey,
    /// A key was released; the next turn of the engine delivers it.
    KeyResolved,
}

/// The phase that the two flags of the keypad encode.
pub open spec fn wait_phase(keyboard: KeyboardView) -> WaitPhase {
    if keyboard.recieved_key_press {
        WaitPhase::KeyResolved
    } else if keyboard.awaiting_key_press {
        WaitPhase::AwaitingKey
    } else {
        WaitPhase::Running
    }
}

/// The keypad after a host key went down: its keypad value, if it has one,
/// is held.
pub open spec fn key_pressed(keyboard: KeyboardView, key: HostKey) -> KeyboardView {
    match key_code(key) {
        Some(code) => KeyboardView { keys_down: keyboard.keys_down.insert(code), ..keyboard },
        None => keyboard,
    }
}

/// The keypad after a host key came up: its keypad value, if it has one, is
/// no longer held, and a pending wait ends with that value.
pub open spec fn key_released(keyboard: KeyboardView, key: HostKey) -> KeyboardView {
    match key_code(key) {
        Some(code) => if keyboard.awaiting_key_press {
            KeyboardView {
                keys_down: keyboard.keys_down.remove(code),
                awaiting_key_press: false,
                recieved_key_press: true,
                last_key_pressed: code,
            }
        } else {
            KeyboardView { keys_down: keyboard.keys_down.remove(code), ..keyboard }
        },
        None => keyboard,
    }
}

/// The hexadecimal keypad and the state of a pending wait for a key.
pub struct Keyboard {
    pub keys_down: HashSet<u8>,
    pub awaiting_key_press: bool,
    pub recieved_key_press: bool,
    pub last_key_pressed: u8,
}

impl View for Keyboard {
    type V = KeyboardView;

    open spec fn view(&self) -> KeyboardView {
        KeyboardView {
            keys_down: self.keys_down@,
            awaiting_key_press: self.awaiting_key_press,
            recieved_key_press: self.recieved_key_press,
            last_key_pressed: self.last_key_pressed,
        }
    }
}

impl Keyboard {
    /// A keypad with no key held and no wait pending.
    pub fn new() -> (keyboard: Self)
        ensures
            keyboard@ == (KeyboardView {
                keys_down: Set::empty(),
                awaiting_key_press: false,
                recieved_key_press: false,
                last_key_pressed: 0,
            }),
    {
        Self {
            keys_down: HashSet::new(),
            awaiting_key_press: false,
            recieved_key_press: false,
            last_key_pressed: 0,
        }
    }

    /// Whether the key with keypad value `key` is held down.
    pub fn is_pressed(&self, key: u8) -> (pressed: bool)
        ensures
            pressed == self@.keys_down.contains(key),
    {
        self.keys_down.contains(&key)
    }

    /// Records that a host key went down.
    pub fn on_key_down(&mut self, key: &HostKey)
        ensures
            final(self)@ == key_pressed(old(self)@, *key),
    {
        let key_code = key.code();

        if key_code.is_some() {
            self.keys_down.insert(key_code.unwrap());
        }
    }

    /// Records that a host key came up. If the machine is waiting for a key,
    /// the wait ends with this key.
    pub fn on_key_up(&mut self, key: &HostKey)
        ensures
            final(self)@ == key_released(old(self)@, *key),
    {
        let key_code = key.code();

        if key_code.is_some() {
            let code: u8 = key_code.unwrap();
            self.keys_down.remove(&code);

            if self.awaiting_key_press {
                self.awaiting_key_press = false;
                self.recieved_key_press = true;
                self.last_key_pressed = code;
            }
        }
    }

    /// The keypad value of the key whose release ended the last wait.
    pub fn get_last_key_pressed(&self) -> (key: u8)
        ensures
            key == self@.last_key_pressed,
    {
        self.last_key_pressed
    }
}

} // verus!
