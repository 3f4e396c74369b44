use vstd::prelude::*;

verus! {

/// A logical key of the sixteen-key CHIP-8 pad, 0x0 to 0xF.
#[derive(Debug, Clone, Copy, PartialEq, Eq, Structural)]
pub enum Keycode {
    Key0,
    Key1,
    Key2,
    Key3,
    Key4,
    Key5,
    Key6,
    Key7,
    Key8,
    Key9,
    KeyA,
    KeyB,
    KeyC,
    KeyD,
    KeyE,
    KeyF,
}

/// A physical key of the host keyboard, as far as the keypad mapping tells them apart.
#[derive(Debug, Clone, Copy, PartialEq, Eq, Structural)]
pub enum PhysicalKey {
    Num1,
    Num2,
    Num3,
    Num4,
    Q,
    W,
    E,
    R,
    A,
    S,
    D,
    F,
    Z,
    X,
    C,
    V,
    /// Any key that the mapping does not use.
    Other,
}

impl Keycode {
    /// The key's number on the pad.
    pub open spec fn value(self) -> nat {
        match self {
            Keycode::Key0 => 0,
            Keycode::Key1 => 1,
            Keycode::Key2 => 2,
            Keycode::Key3 => 3,
            Keycode::Key4 => 4,
            Keycode::Key5 => 5,
            Keycode::Key6 => 6,
            Keycode::Key7 => 7,
            Keycode::Key8 => 8,
            Keycode::Key9 => 9,
            Keycode::KeyA => 10,
            Keycode::KeyB => 11,
            Keycode::KeyC => 12,
            Keycode::KeyD => 13,
            Keycode::KeyE => 14,
            Keycode::KeyF => 15,
        }
    }

    /// The key's number on the pad, as an index.
    pub fn index(&self) -> (r: usize)
        ensures
            r == self.value(),
            r < 16,
    {
        match self {
            Keycode::Key0 => 0,
            Keycode::Key1 => 1,
            Keycode::Key2 => 2,
            Keycode::Key3 => 3,
            Keycode::Key4 => 4,
            Keycode::Key5 => 5,
            Keycode::Key6 => 6,
            Keycode::Key7 => 7,
            Keycode::Key8 => 8,
            Keycode::Key9 => 9,
            Keycode::KeyA => 10,
            Keycode::KeyB => 11,
            Keycode::KeyC => 12,
            Keycode::KeyD => 13,
            Keycode::KeyE => 14,
            Keycode::KeyF => 15,
        }
    }
}

/// The logical key that a physical key stands for: the 4x4 block 1-4 / Q-R / A-F / Z-V
/// laid over the pad rows `1 2 3 C`, `4 5 6 D`, `7 8 9 E`, `A 0 B F`.
pub open spec fn key_mapping(key: PhysicalKey) -> Option<Keycode> {
    match key {
        PhysicalKey::Num1 => Some(Keycode::Key1),
        PhysicalKey::Num2 => Some(Keycode::Key2),
        PhysicalKey::Num3 => Some(Keycode::Key3),
        PhysicalKey::Num4 => Some(Keycode::KeyC),
        PhysicalKey::Q => Some(Keycode::Key4),
        PhysicalKey::W => Some(Keycode::Key5),
        PhysicalKey::E => Some(Keycode::Key6),
        PhysicalKey::R => Some(Keycode::KeyD),
        PhysicalKey::A => Some(Keycode::Key7),
        PhysicalKey::S => Some(Keycode::Key8),
        PhysicalKey::D => Some(Keycode::Key9),
        PhysicalKey::F => Some(Keycode::KeyE),
        PhysicalKey::Z => Some(Keycode::KeyA),
        PhysicalKey::X => Some(Keycode::Key0),
        PhysicalKey::C => Some(Keycode::KeyB),
        PhysicalKey::V => Some(Keycode::KeyF),
        PhysicalKey::Other => None,
    }
}

/// The key states after the physical key `key` went down.
pub open spec fn pressed(keys: Seq<bool>, key: PhysicalKey) -> Seq<bool> {
    match key_mapping(key) {
        Some(k) => keys.update(k.value() as int, true),
        None => keys,
    }
}

/// The key states after the physical key `key` went up.
pub open spec fn released(keys: Seq<bool>, key: PhysicalKey) -> Seq<bool> {
    match key_mapping(key) {
        Some(k) => keys.update(k.value() as int, false),
        None => keys,
    }
}

/// A mapped key that goes down is down afterwards, and no other key changes; when it
/// goes up again it is up, and if it was up before, every key is as it was. A key
/// without a mapping changes nothing.
pub proof fn lemma_down_then_up(keys: Seq<bool>, key: PhysicalKey)
    requires
        keys.len() == 16,
    ensures
        key_mapping(key) matches Some(k) ==> {
            &&& pressed(keys, key)[k.value() as int]
            &&& forall|j: int|
                0 <= j < 16 && j != k.value() ==> pressed(keys, key)[j] == keys[j]
            &&& !released(pressed(keys, key), key)[k.value() as int]
            &&& !keys[k.value() as int] ==> released(pressed(keys, key), key) == keys
        },
        key_mapping(key) is None ==> pressed(keys, key) == keys && released(keys, key) == keys,
{
    if let Some(k) = key_mapping(key) {
        if !keys[k.value() as int] {
            assert(released(pressed(keys, key), key) =~= keys);
        }
    }
}

/// The state of the sixteen keys: `true` where a key is held down.
pub struct Keypad {
    down_key_map: [bool; 16],
}

impl View for Keypad {
    type V = Seq<bool>;

    /// Entry `k` tells whether the key numbered `k` is down.
    closed spec fn view(&self) -> Seq<bool> {
        self.down_key_map@
    }
}

impl Keypad {
    /// There are sixteen keys.
    pub proof fn lemma_view_len(&self)
        ensures
            self@.len() == 16,
    {
    }

    /// A pad with every key up.
    pub fn new() -> (r: Keypad)
        ensures
            r@ == Seq::new(16, |i: int| false),
    {
        let k = Keypad { down_key_map: [false; 16] };
        assert(k@ =~= Seq::new(16, |i: int| false));
        k
    }

    /// The key numbered `raw`; only the sixteen pad numbers name a key.
    pub fn require_from(raw: u32) -> (r: Keycode)
        requires
            raw < 16,
        ensures
            r.value() == raw,
    {
        match raw {
            0 => Keycode::Key0,
            1 => Keycode::Key1,
            2 => Keycode::Key2,
            3 => Keycode::Key3,
            4 => Keycode::Key4,
            5 => Keycode::Key5,
            6 => Keycode::Key6,
            7 => Keycode::Key7,
            8 => Keycode::Key8,
            9 => Keycode::Key9,
            10 => Keycode::KeyA,
            11 => Keycode::KeyB,
            12 => Keycode::KeyC,
            13 => Keycode::KeyD,
            14 => Keycode::KeyE,
            _ => Keycode::KeyF,
        }
    }

    /// The lowest-numbered key that is down, if any is.
    pub fn get_first_pressed_key(&self) -> (r: Option<Keycode>)
        ensures
            r is None <==> forall|i: int| 0 <= i < 16 ==> !self@[i],
            r matches Some(k) ==> self@[k.value() as int] && forall|i: int|
                0 <= i < k.value() ==> !self@[i],
    {
        let mut i: usize = 0;
        while i < 16
            invariant
                i <= 16,
                forall|j: int| 0 <= j < i ==> !self@[j],
            decreases 16 - i,
        {
            if self.down_key_map[i] {
                assert(self@[i as int]);
                return Some(Keypad::require_from(i as u32));
            }
            i += 1;
        }
        None
    }

    pub fn is_down(&self, keycode: Keycode) -> (r: bool)
        ensures
            r == self@[keycode.value() as int],
    {
        self.down_key_map[keycode.index()]
    }

    /// Marks the mapped key as down; a physical key without a mapping changes nothing.
    pub fn on_down(&mut self, key: PhysicalKey)
        ensures
            final(self)@ == pressed(old(self)@, key),
    {
        match self.decode(key) {
            Some(keycode) => {
                self.down_key_map[keycode.index()] = true;
            },
            None => {},
        }
    }

    /// Marks the mapped key as up; a physical key without a mapping changes nothing.
    pub fn on_up(&mut self, key: PhysicalKey)
        ensures
            final(self)@ == released(old(self)@, key),
    {
        match self.decode(key) {
            Some(keycode) => {
                self.down_key_map[keycode.index()] = false;
            },
            None => {},
        }
    }

    fn decode(&self, key: PhysicalKey) -> (r: Option<Keycode>)
        ensures
            r == key_mapping(key),
    {
        match key {
            PhysicalKey::Num1 => Some(Keycode::Key1),
            PhysicalKey::Num2 => Some(Keycode::Key2),
            PhysicalKey::Num3 => Some(Keycode::Key3),
            PhysicalKey::Num4 => Some(Keycode::KeyC),
            PhysicalKey::Q => Some(Keycode::Key4),
            PhysicalKey::W => Some(Keycode::Key5),
            PhysicalKey::E => Some(Keycode::Key6),
            PhysicalKey::R => Some(Keycode::KeyD),
            PhysicalKey::A => Some(Keycode::Key7),
            PhysicalKey::S => Some(Keycode::Key8),
            PhysicalKey::D => Some(Keycode::Key9),
            PhysicalKey::F => Some(Keycode::KeyE),
            PhysicalKey::Z => Some(Keycode::KeyA),
            PhysicalKey::X => Some(Keycode::Key0),
            PhysicalKey::C => Some(Keycode::KeyB),
            PhysicalKey::V => Some(Keycode::KeyF),
            PhysicalKey::Other => None,
        }
    }
}

} // verus!
