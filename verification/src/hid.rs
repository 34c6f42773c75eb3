//! Virtual keys, keyboard modifiers and the bookkeeping that turns a wanted
//! modifier state into key presses.
use vstd::prelude::*;

verus! {

/// A set of held modifiers, one bit each.
pub type KeyModifier = u8;

pub const SHIFT: KeyModifier = 0x01;
pub const CAPS_LOCK: KeyModifier = 0x02;
pub const CTRL: KeyModifier = 0x04;
pub const ALT: KeyModifier = 0x08;
pub const NUM_LOCK: KeyModifier = 0x10;
pub const SUPER: KeyModifier = 0x40;
pub const ALTGR: KeyModifier = 0x80;

/// Modifiers that lock (toggle) instead of being held.
pub const LOCKED: KeyModifier = 0x12;

/// Linux button codes of the three mouse buttons.
pub const MOUSE_LEFT: u16 = 0x110;
pub const MOUSE_RIGHT: u16 = 0x111;
pub const MOUSE_MIDDLE: u16 = 0x112;

/// A key of the virtual keyboard. Its number ([`VirtualKey::code`]) is the
/// XKB keycode (the Linux evdev code plus 8).
#[allow(non_camel_case_types)]
#[derive(Debug, PartialEq, Eq, Structural, Clone, Copy)]
pub enum VirtualKey {
    Escape,
    N1,
    N2,
    N3,
    N4,
    N5,
    N6,
    N7,
    N8,
    N9,
    N0,
    Minus,
    Plus,
    BackSpace,
    Tab,
    Q,
    W,
    E,
    R,
    T,
    Y,
    U,
    I,
    O,
    P,
    Oem4,
    Oem6,
    Return,
    LCtrl,
    A,
    S,
    D,
    F,
    G,
    H,
    J,
    K,
    L,
    Oem1,
    Oem7,
    Oem3,
    LShift,
    Oem5,
    Z,
    X,
    C,
    V,
    B,
    N,
    M,
    Comma,
    Period,
    Oem2,
    RShift,
    KP_Multiply,
    LAlt,
    Space,
    Caps,
    F1,
    F2,
    F3,
    F4,
    F5,
    F6,
    F7,
    F8,
    F9,
    F10,
    NumLock,
    Scroll,
    KP_7,
    KP_8,
    KP_9,
    KP_Subtract,
    KP_4,
    KP_5,
    KP_6,
    KP_Add,
    KP_1,
    KP_2,
    KP_3,
    KP_0,
    KP_Decimal,
    Oem102,
    F11,
    F12,
    AbntC1,
    Katakana,
    Hiragana,
    Henkan,
    Kana,
    Muhenkan,
    KP_Enter,
    RCtrl,
    KP_Divide,
    Print,
    AltGr,
    Home,
    Up,
    Prior,
    Left,
    Right,
    End,
    Down,
    Next,
    Insert,
    Delete,
    XF86AudioMute,
    XF86AudioLowerVolume,
    XF86AudioRaiseVolume,
    Pause,
    AbntC2,
    Hangul,
    Hanja,
    LSuper,
    RSuper,
    Menu,
    Help,
    XF86MenuKB,
    XF86Sleep,
    XF86Xfer,
    XF86Launch1,
    XF86Launch2,
    XF86WWW,
    XF86Mail,
    XF86Favorites,
    XF86MyComputer,
    XF86Back,
    XF86Forward,
    XF86AudioNext,
    XF86AudioPlay,
    XF86AudioPrev,
    XF86AudioStop,
    XF86HomePage,
    XF86Reload,
    F13,
    F14,
    F15,
    F16,
    F17,
    F18,
    F19,
    F20,
    F21,
    F22,
    F23,
    F24,
    Hyper,
    XF86Launch3,
    XF86Launch4,
    XF86LaunchB,
    XF86Search,
}

impl VirtualKey {
    /// The XKB keycode of the key.
    pub open spec fn spec_code(self) -> u16 {
        match self {
            VirtualKey::Escape => 9,
            VirtualKey::N1 => 10,
            VirtualKey::N2 => 11,
            VirtualKey::N3 => 12,
            VirtualKey::N4 => 13,
            VirtualKey::N5 => 14,
            VirtualKey::N6 => 15,
            VirtualKey::N7 => 16,
            VirtualKey::N8 => 17,
            VirtualKey::N9 => 18,
            VirtualKey::N0 => 19,
            VirtualKey::Minus => 20,
            VirtualKey::Plus => 21,
            VirtualKey::BackSpace => 22,
            VirtualKey::Tab => 23,
            VirtualKey::Q => 24,
            VirtualKey::W => 25,
            VirtualKey::E => 26,
            VirtualKey::R => 27,
            VirtualKey::T => 28,
            VirtualKey::Y => 29,
            VirtualKey::U => 30,
            VirtualKey::I => 31,
            VirtualKey::O => 32,
            VirtualKey::P => 33,
            VirtualKey::Oem4 => 34,
            VirtualKey::Oem6 => 35,
            VirtualKey::Return => 36,
            VirtualKey::LCtrl => 37,
            VirtualKey::A => 38,
            VirtualKey::S => 39,
            VirtualKey::D => 40,
            VirtualKey::F => 41,
            VirtualKey::G => 42,
            VirtualKey::H => 43,
            VirtualKey::J => 44,
            VirtualKey::K => 45,
            VirtualKey::L => 46,
            VirtualKey::Oem1 => 47,
            VirtualKey::Oem7 => 48,
            VirtualKey::Oem3 => 49,
            VirtualKey::LShift => 50,
            VirtualKey::Oem5 => 51,
            VirtualKey::Z => 52,
            VirtualKey::X => 53,
            VirtualKey::C => 54,
            VirtualKey::V => 55,
            VirtualKey::B => 56,
            VirtualKey::N => 57,
            VirtualKey::M => 58,
            VirtualKey::Comma => 59,
            VirtualKey::Period => 60,
            VirtualKey::Oem2 => 61,
            VirtualKey::RShift => 62,
            VirtualKey::KP_Multiply => 63,
            VirtualKey::LAlt => 64,
            VirtualKey::Space => 65,
            VirtualKey::Caps => 66,
            VirtualKey::F1 => 67,
            VirtualKey::F2 => 68,
            VirtualKey::F3 => 69,
            VirtualKey::F4 => 70,
            VirtualKey::F5 => 71,
            VirtualKey::F6 => 72,
            VirtualKey::F7 => 73,
            VirtualKey::F8 => 74,
            VirtualKey::F9 => 75,
            VirtualKey::F10 => 76,
            VirtualKey::NumLock => 77,
            VirtualKey::Scroll => 78,
            VirtualKey::KP_7 => 79,
            VirtualKey::KP_8 => 80,
            VirtualKey::KP_9 => 81,
            VirtualKey::KP_Subtract => 82,
            VirtualKey::KP_4 => 83,
            VirtualKey::KP_5 => 84,
            VirtualKey::KP_6 => 85,
            VirtualKey::KP_Add => 86,
            VirtualKey::KP_1 => 87,
            VirtualKey::KP_2 => 88,
            VirtualKey::KP_3 => 89,
            VirtualKey::KP_0 => 90,
            VirtualKey::KP_Decimal => 91,
            VirtualKey::Oem102 => 94,
            VirtualKey::F11 => 95,
            VirtualKey::F12 => 96,
            VirtualKey::AbntC1 => 97,
            VirtualKey::Katakana => 98,
            VirtualKey::Hiragana => 99,
            VirtualKey::Henkan => 100,
            VirtualKey::Kana => 101,
            VirtualKey::Muhenkan => 102,
            VirtualKey::KP_Enter => 104,
            VirtualKey::RCtrl => 105,
            VirtualKey::KP_Divide => 106,
            VirtualKey::Print => 107,
            VirtualKey::AltGr => 108,
            VirtualKey::Home => 110,
            VirtualKey::Up => 111,
            VirtualKey::Prior => 112,
            VirtualKey::Left => 113,
            VirtualKey::Right => 114,
            VirtualKey::End => 115,
            VirtualKey::Down => 116,
            VirtualKey::Next => 117,
            VirtualKey::Insert => 118,
            VirtualKey::Delete => 119,
            VirtualKey::XF86AudioMute => 121,
            VirtualKey::XF86AudioLowerVolume => 122,
            VirtualKey::XF86AudioRaiseVolume => 123,
            VirtualKey::Pause => 127,
            VirtualKey::AbntC2 => 129,
            VirtualKey::Hangul => 130,
            VirtualKey::Hanja => 131,
            VirtualKey::LSuper => 133,
            VirtualKey::RSuper => 134,
            VirtualKey::Menu => 135,
            VirtualKey::Help => 146,
            VirtualKey::XF86MenuKB => 147,
            VirtualKey::XF86Sleep => 150,
            VirtualKey::XF86Xfer => 155,
            VirtualKey::XF86Launch1 => 156,
            VirtualKey::XF86Launch2 => 157,
            VirtualKey::XF86WWW => 158,
            VirtualKey::XF86Mail => 163,
            VirtualKey::XF86Favorites => 164,
            VirtualKey::XF86MyComputer => 165,
            VirtualKey::XF86Back => 166,
            VirtualKey::XF86Forward => 167,
            VirtualKey::XF86AudioNext => 171,
            VirtualKey::XF86AudioPlay => 172,
            VirtualKey::XF86AudioPrev => 173,
            VirtualKey::XF86AudioStop => 174,
            VirtualKey::XF86HomePage => 180,
            VirtualKey::XF86Reload => 181,
            VirtualKey::F13 => 191,
            VirtualKey::F14 => 192,
            VirtualKey::F15 => 193,
            VirtualKey::F16 => 194,
            VirtualKey::F17 => 195,
            VirtualKey::F18 => 196,
            VirtualKey::F19 => 197,
            VirtualKey::F20 => 198,
            VirtualKey::F21 => 199,
            VirtualKey::F22 => 200,
            VirtualKey::F23 => 201,
            VirtualKey::F24 => 202,
            VirtualKey::Hyper => 207,
            VirtualKey::XF86Launch3 => 208,
            VirtualKey::XF86Launch4 => 209,
            VirtualKey::XF86LaunchB => 210,
            VirtualKey::XF86Search => 225,
        }
    }

    /// The XKB keycode of the key.
    pub fn code(self) -> (c: u16)
        ensures
            c == self.spec_code(),
    {
        match self {
            VirtualKey::Escape => 9,
            VirtualKey::N1 => 10,
            VirtualKey::N2 => 11,
            VirtualKey::N3 => 12,
            VirtualKey::N4 => 13,
            VirtualKey::N5 => 14,
            VirtualKey::N6 => 15,
            VirtualKey::N7 => 16,
            VirtualKey::N8 => 17,
            VirtualKey::N9 => 18,
            VirtualKey::N0 => 19,
            VirtualKey::Minus => 20,
            VirtualKey::Plus => 21,
            VirtualKey::BackSpace => 22,
            VirtualKey::Tab => 23,
            VirtualKey::Q => 24,
            VirtualKey::W => 25,
            VirtualKey::E => 26,
            VirtualKey::R => 27,
            VirtualKey::T => 28,
            VirtualKey::Y => 29,
            VirtualKey::U => 30,
            VirtualKey::I => 31,
            VirtualKey::O => 32,
            VirtualKey::P => 33,
            VirtualKey::Oem4 => 34,
            VirtualKey::Oem6 => 35,
            VirtualKey::Return => 36,
            VirtualKey::LCtrl => 37,
            VirtualKey::A => 38,
            VirtualKey::S => 39,
            VirtualKey::D => 40,
            VirtualKey::F => 41,
            VirtualKey::G => 42,
            VirtualKey::H => 43,
            VirtualKey::J => 44,
            VirtualKey::K => 45,
            VirtualKey::L => 46,
            VirtualKey::Oem1 => 47,
            VirtualKey::Oem7 => 48,
            VirtualKey::Oem3 => 49,
            VirtualKey::LShift => 50,
            VirtualKey::Oem5 => 51,
            VirtualKey::Z => 52,
            VirtualKey::X => 53,
            VirtualKey::C => 54,
            VirtualKey::V => 55,
            VirtualKey::B => 56,
            VirtualKey::N => 57,
            VirtualKey::M => 58,
            VirtualKey::Comma => 59,
            VirtualKey::Period => 60,
            VirtualKey::Oem2 => 61,
            VirtualKey::RShift => 62,
            VirtualKey::KP_Multiply => 63,
            VirtualKey::LAlt => 64,
            VirtualKey::Space => 65,
            VirtualKey::Caps => 66,
            VirtualKey::F1 => 67,
            VirtualKey::F2 => 68,
            VirtualKey::F3 => 69,
            VirtualKey::F4 => 70,
            VirtualKey::F5 => 71,
            VirtualKey::F6 => 72,
            VirtualKey::F7 => 73,
            VirtualKey::F8 => 74,
            VirtualKey::F9 => 75,
            VirtualKey::F10 => 76,
            VirtualKey::NumLock => 77,
            VirtualKey::Scroll => 78,
            VirtualKey::KP_7 => 79,
            VirtualKey::KP_8 => 80,
            VirtualKey::KP_9 => 81,
            VirtualKey::KP_Subtract => 82,
            VirtualKey::KP_4 => 83,
            VirtualKey::KP_5 => 84,
            VirtualKey::KP_6 => 85,
            VirtualKey::KP_Add => 86,
            VirtualKey::KP_1 => 87,
            VirtualKey::KP_2 => 88,
            VirtualKey::KP_3 => 89,
            VirtualKey::KP_0 => 90,
            VirtualKey::KP_Decimal => 91,
            VirtualKey::Oem102 => 94,
            VirtualKey::F11 => 95,
            VirtualKey::F12 => 96,
            VirtualKey::AbntC1 => 97,
            VirtualKey::Katakana => 98,
            VirtualKey::Hiragana => 99,
            VirtualKey::Henkan => 100,
            VirtualKey::Kana => 101,
            VirtualKey::Muhenkan => 102,
            VirtualKey::KP_Enter => 104,
            VirtualKey::RCtrl => 105,
            VirtualKey::KP_Divide => 106,
            VirtualKey::Print => 107,
            VirtualKey::AltGr => 108,
            VirtualKey::Home => 110,
            VirtualKey::Up => 111,
            VirtualKey::Prior => 112,
            VirtualKey::Left => 113,
            VirtualKey::Right => 114,
            VirtualKey::End => 115,
            VirtualKey::Down => 116,
            VirtualKey::Next => 117,
            VirtualKey::Insert => 118,
            VirtualKey::Delete => 119,
            VirtualKey::XF86AudioMute => 121,
            VirtualKey::XF86AudioLowerVolume => 122,
            VirtualKey::XF86AudioRaiseVolume => 123,
            VirtualKey::Pause => 127,
            VirtualKey::AbntC2 => 129,
            VirtualKey::Hangul => 130,
            VirtualKey::Hanja => 131,
            VirtualKey::LSuper => 133,
            VirtualKey::RSuper => 134,
            VirtualKey::Menu => 135,
            VirtualKey::Help => 146,
            VirtualKey::XF86MenuKB => 147,
            VirtualKey::XF86Sleep => 150,
            VirtualKey::XF86Xfer => 155,
            VirtualKey::XF86Launch1 => 156,
            VirtualKey::XF86Launch2 => 157,
            VirtualKey::XF86WWW => 158,
            VirtualKey::XF86Mail => 163,
            VirtualKey::XF86Favorites => 164,
            VirtualKey::XF86MyComputer => 165,
            VirtualKey::XF86Back => 166,
            VirtualKey::XF86Forward => 167,
            VirtualKey::XF86AudioNext => 171,
            VirtualKey::XF86AudioPlay => 172,
            VirtualKey::XF86AudioPrev => 173,
            VirtualKey::XF86AudioStop => 174,
            VirtualKey::XF86HomePage => 180,
            VirtualKey::XF86Reload => 181,
            VirtualKey::F13 => 191,
            VirtualKey::F14 => 192,
            VirtualKey::F15 => 193,
            VirtualKey::F16 => 194,
            VirtualKey::F17 => 195,
            VirtualKey::F18 => 196,
            VirtualKey::F19 => 197,
            VirtualKey::F20 => 198,
            VirtualKey::F21 => 199,
            VirtualKey::F22 => 200,
            VirtualKey::F23 => 201,
            VirtualKey::F24 => 202,
            VirtualKey::Hyper => 207,
            VirtualKey::XF86Launch3 => 208,
            VirtualKey::XF86Launch4 => 209,
            VirtualKey::XF86LaunchB => 210,
            VirtualKey::XF86Search => 225,
        }
    }
}

/// The key whose XKB keycode is `code`, if there is one.
pub fn key_from_code(code: u16) -> (k: Option<VirtualKey>)
    ensures
        match k {
            Some(key) => key.spec_code() == code,
            None => forall|key: VirtualKey| key.spec_code() != code,
        },
{
    match code {
        9 => Some(VirtualKey::Escape),
        10 => Some(VirtualKey::N1),
        11 => Some(VirtualKey::N2),
        12 => Some(VirtualKey::N3),
        13 => Some(VirtualKey::N4),
        14 => Some(VirtualKey::N5),
        15 => Some(VirtualKey::N6),
        16 => Some(VirtualKey::N7),
        17 => Some(VirtualKey::N8),
        18 => Some(VirtualKey::N9),
        19 => Some(VirtualKey::N0),
        20 => Some(VirtualKey::Minus),
        21 => Some(VirtualKey::Plus),
        22 => Some(VirtualKey::BackSpace),
        23 => Some(VirtualKey::Tab),
        24 => Some(VirtualKey::Q),
        25 => Some(VirtualKey::W),
        26 => Some(VirtualKey::E),
        27 => Some(VirtualKey::R),
        28 => Some(VirtualKey::T),
        29 => Some(VirtualKey::Y),
        30 => Some(VirtualKey::U),
        31 => Some(VirtualKey::I),
        32 => Some(VirtualKey::O),
        33 => Some(VirtualKey::P),
        34 => Some(VirtualKey::Oem4),
        35 => Some(VirtualKey::Oem6),
        36 => Some(VirtualKey::Return),
        37 => Some(VirtualKey::LCtrl),
        38 => Some(VirtualKey::A),
        39 => Some(VirtualKey::S),
        40 => Some(VirtualKey::D),
        41 => Some(VirtualKey::F),
        42 => Some(VirtualKey::G),
        43 => Some(VirtualKey::H),
        44 => Some(VirtualKey::J),
        45 => Some(VirtualKey::K),
        46 => Some(VirtualKey::L),
        47 => Some(VirtualKey::Oem1),
        48 => Some(VirtualKey::Oem7),
        49 => Some(VirtualKey::Oem3),
        50 => Some(VirtualKey::LShift),
        51 => Some(VirtualKey::Oem5),
        52 => Some(VirtualKey::Z),
        53 => Some(VirtualKey::X),
        54 => Some(VirtualKey::C),
        55 => Some(VirtualKey::V),
        56 => Some(VirtualKey::B),
        57 => Some(VirtualKey::N),
        58 => Some(VirtualKey::M),
        59 => Some(VirtualKey::Comma),
        60 => Some(VirtualKey::Period),
        61 => Some(VirtualKey::Oem2),
        62 => Some(VirtualKey::RShift),
        63 => Some(VirtualKey::KP_Multiply),
        64 => Some(VirtualKey::LAlt),
        65 => Some(VirtualKey::Space),
        66 => Some(VirtualKey::Caps),
        67 => Some(VirtualKey::F1),
        68 => Some(VirtualKey::F2),
        69 => Some(VirtualKey::F3),
        70 => Some(VirtualKey::F4),
        71 => Some(VirtualKey::F5),
        72 => Some(VirtualKey::F6),
        73 => Some(VirtualKey::F7),
        74 => Some(VirtualKey::F8),
        75 => Some(VirtualKey::F9),
        76 => Some(VirtualKey::F10),
        77 => Some(VirtualKey::NumLock),
        78 => Some(VirtualKey::Scroll),
        79 => Some(VirtualKey::KP_7),
        80 => Some(VirtualKey::KP_8),
        81 => Some(VirtualKey::KP_9),
        82 => Some(VirtualKey::KP_Subtract),
        83 => Some(VirtualKey::KP_4),
        84 => Some(VirtualKey::KP_5),
        85 => Some(VirtualKey::KP_6),
        86 => Some(VirtualKey::KP_Add),
        87 => Some(VirtualKey::KP_1),
        88 => Some(VirtualKey::KP_2),
        89 => Some(VirtualKey::KP_3),
        90 => Some(VirtualKey::KP_0),
        91 => Some(VirtualKey::KP_Decimal),
        94 => Some(VirtualKey::Oem102),
        95 => Some(VirtualKey::F11),
        96 => Some(VirtualKey::F12),
        97 => Some(VirtualKey::AbntC1),
        98 => Some(VirtualKey::Katakana),
        99 => Some(VirtualKey::Hiragana),
        100 => Some(VirtualKey::Henkan),
        101 => Some(VirtualKey::Kana),
        102 => Some(VirtualKey::Muhenkan),
        104 => Some(VirtualKey::KP_Enter),
        105 => Some(VirtualKey::RCtrl),
        106 => Some(VirtualKey::KP_Divide),
        107 => Some(VirtualKey::Print),
        108 => Some(VirtualKey::AltGr),
        110 => Some(VirtualKey::Home),
        111 => Some(VirtualKey::Up),
        112 => Some(VirtualKey::Prior),
        113 => Some(VirtualKey::Left),
        114 => Some(VirtualKey::Right),
        115 => Some(VirtualKey::End),
        116 => Some(VirtualKey::Down),
        117 => Some(VirtualKey::Next),
        118 => Some(VirtualKey::Insert),
        119 => Some(VirtualKey::Delete),
        121 => Some(VirtualKey::XF86AudioMute),
        122 => Some(VirtualKey::XF86AudioLowerVolume),
        123 => Some(VirtualKey::XF86AudioRaiseVolume),
        127 => Some(VirtualKey::Pause),
        129 => Some(VirtualKey::AbntC2),
        130 => Some(VirtualKey::Hangul),
        131 => Some(VirtualKey::Hanja),
        133 => Some(VirtualKey::LSuper),
        134 => Some(VirtualKey::RSuper),
        135 => Some(VirtualKey::Menu),
        146 => Some(VirtualKey::Help),
        147 => Some(VirtualKey::XF86MenuKB),
        150 => Some(VirtualKey::XF86Sleep),
        155 => Some(VirtualKey::XF86Xfer),
        156 => Some(VirtualKey::XF86Launch1),
        157 => Some(VirtualKey::XF86Launch2),
        158 => Some(VirtualKey::XF86WWW),
        163 => Some(VirtualKey::XF86Mail),
        164 => Some(VirtualKey::XF86Favorites),
        165 => Some(VirtualKey::XF86MyComputer),
        166 => Some(VirtualKey::XF86Back),
        167 => Some(VirtualKey::XF86Forward),
        171 => Some(VirtualKey::XF86AudioNext),
        172 => Some(VirtualKey::XF86AudioPlay),
        173 => Some(VirtualKey::XF86AudioPrev),
        174 => Some(VirtualKey::XF86AudioStop),
        180 => Some(VirtualKey::XF86HomePage),
        181 => Some(VirtualKey::XF86Reload),
        191 => Some(VirtualKey::F13),
        192 => Some(VirtualKey::F14),
        193 => Some(VirtualKey::F15),
        194 => Some(VirtualKey::F16),
        195 => Some(VirtualKey::F17),
        196 => Some(VirtualKey::F18),
        197 => Some(VirtualKey::F19),
        198 => Some(VirtualKey::F20),
        199 => Some(VirtualKey::F21),
        200 => Some(VirtualKey::F22),
        201 => Some(VirtualKey::F23),
        202 => Some(VirtualKey::F24),
        207 => Some(VirtualKey::Hyper),
        208 => Some(VirtualKey::XF86Launch3),
        209 => Some(VirtualKey::XF86Launch4),
        210 => Some(VirtualKey::XF86LaunchB),
        225 => Some(VirtualKey::XF86Search),
        _ => None,
    }
}

/// The modifier that a key stands for, if it is a modifier key.
pub open spec fn spec_key_modifier(key: VirtualKey) -> Option<KeyModifier> {
    match key {
        VirtualKey::LShift | VirtualKey::RShift => Some(SHIFT),
        VirtualKey::Caps => Some(CAPS_LOCK),
        VirtualKey::LCtrl | VirtualKey::RCtrl => Some(CTRL),
        VirtualKey::LAlt => Some(ALT),
        VirtualKey::NumLock => Some(NUM_LOCK),
        VirtualKey::LSuper | VirtualKey::RSuper => Some(SUPER),
        VirtualKey::AltGr => Some(ALTGR),
        _ => None,
    }
}

/// The modifier that a key stands for, if it is a modifier key.
pub fn key_modifier(key: VirtualKey) -> (m: Option<KeyModifier>)
    ensures
        m == spec_key_modifier(key),
{
    match key {
        VirtualKey::LShift | VirtualKey::RShift => Some(SHIFT),
        VirtualKey::Caps => Some(CAPS_LOCK),
        VirtualKey::LCtrl | VirtualKey::RCtrl => Some(CTRL),
        VirtualKey::LAlt => Some(ALT),
        VirtualKey::NumLock => Some(NUM_LOCK),
        VirtualKey::LSuper | VirtualKey::RSuper => Some(SUPER),
        VirtualKey::AltGr => Some(ALTGR),
        _ => None,
    }
}

/// The keys that produce a single modifier bit, primary key first.
pub open spec fn spec_modifier_keys(m: KeyModifier) -> Seq<VirtualKey> {
    if m == SHIFT {
        seq![VirtualKey::LShift, VirtualKey::RShift]
    } else if m == CAPS_LOCK {
        seq![VirtualKey::Caps]
    } else if m == CTRL {
        seq![VirtualKey::LCtrl, VirtualKey::RCtrl]
    } else if m == ALT {
        seq![VirtualKey::LAlt]
    } else if m == NUM_LOCK {
        seq![VirtualKey::NumLock]
    } else if m == SUPER {
        seq![VirtualKey::LSuper, VirtualKey::RSuper]
    } else if m == ALTGR {
        seq![VirtualKey::AltGr]
    } else {
        seq![]
    }
}

/// The keys that produce a single modifier bit, primary key first; empty for
/// anything that is not one of the seven modifier bits.
pub fn modifier_keys(m: KeyModifier) -> (keys: Vec<VirtualKey>)
    ensures
        keys@ == spec_modifier_keys(m),
{
    if m == SHIFT {
        vec![VirtualKey::LShift, VirtualKey::RShift]
    } else if m == CAPS_LOCK {
        vec![VirtualKey::Caps]
    } else if m == CTRL {
        vec![VirtualKey::LCtrl, VirtualKey::RCtrl]
    } else if m == ALT {
        vec![VirtualKey::LAlt]
    } else if m == NUM_LOCK {
        vec![VirtualKey::NumLock]
    } else if m == SUPER {
        vec![VirtualKey::LSuper, VirtualKey::RSuper]
    } else if m == ALTGR {
        vec![VirtualKey::AltGr]
    } else {
        vec![]
    }
}

/// How the on-screen keyboard treats a key.
#[derive(Debug, PartialEq, Eq, Structural, Clone, Copy)]
pub enum KeyType {
    Symbol,
    NumPad,
    Special,
    Other,
}

/// Whether the key's code lies in the inclusive range spanned by `lo` and `hi`.
pub open spec fn code_between(key: VirtualKey, lo: VirtualKey, hi: VirtualKey) -> bool {
    lo.spec_code() <= key.spec_code() && key.spec_code() <= hi.spec_code()
}

/// The classification of [`get_key_type`].
pub open spec fn spec_key_type(key: VirtualKey) -> KeyType {
    if code_between(key, VirtualKey::N1, VirtualKey::Plus)
        || code_between(key, VirtualKey::Q, VirtualKey::Oem6)
        || code_between(key, VirtualKey::A, VirtualKey::Oem3)
        || code_between(key, VirtualKey::Oem5, VirtualKey::Oem2)
        || key == VirtualKey::Oem102
    {
        KeyType::Symbol
    } else if code_between(key, VirtualKey::KP_7, VirtualKey::KP_0)
        && key != VirtualKey::KP_Subtract && key != VirtualKey::KP_Add
    {
        KeyType::NumPad
    } else if key == VirtualKey::BackSpace || key == VirtualKey::Down || key == VirtualKey::Left
        || key == VirtualKey::Menu || key == VirtualKey::Return || key == VirtualKey::KP_Enter
        || key == VirtualKey::Right || key == VirtualKey::LShift || key == VirtualKey::RShift
        || key == VirtualKey::LSuper || key == VirtualKey::RSuper || key == VirtualKey::Tab
        || key == VirtualKey::Up
    {
        KeyType::Special
    } else {
        KeyType::Other
    }
}

/// Classifies a key: the symbol rows, the numeric keypad digits, the special
/// keys (arrows, enter, shift, ...) and everything else.
pub fn get_key_type(key: VirtualKey) -> (t: KeyType)
    ensures
        t == spec_key_type(key),
{
    let c = key.code();
    if (10 <= c && c <= 21) || (24 <= c && c <= 35) || (38 <= c && c <= 49) || (51 <= c && c
        <= 61) || c == 94 {
        KeyType::Symbol
    } else if 79 <= c && c <= 90 && c != 82 && c != 86 {
        KeyType::NumPad
    } else {
        match key {
            VirtualKey::BackSpace | VirtualKey::Down | VirtualKey::Left | VirtualKey::Menu
            | VirtualKey::Return | VirtualKey::KP_Enter | VirtualKey::Right | VirtualKey::LShift
            | VirtualKey::RShift | VirtualKey::LSuper | VirtualKey::RSuper | VirtualKey::Tab
            | VirtualKey::Up => KeyType::Special,
            _ => KeyType::Other,
        }
    }
}


/// The key event that reports bit `m` moving from `cur` to `new`: nothing when
/// the bit does not change, else the modifier's primary key going down or up.
pub open spec fn bit_transition(cur: KeyModifier, new: KeyModifier, m: KeyModifier) -> Seq<(VirtualKey, bool)> {
    if (cur ^ new) & m != 0 {
        seq![(spec_modifier_keys(m)[0], new & m != 0)]
    } else {
        seq![]
    }
}

/// The key events that take a keyboard from modifier state `cur` to `new`,
/// one per changed modifier bit, in increasing bit order.
pub open spec fn modifier_transitions(cur: KeyModifier, new: KeyModifier) -> Seq<(VirtualKey, bool)> {
    bit_transition(cur, new, SHIFT) + bit_transition(cur, new, CAPS_LOCK) + bit_transition(cur, new, CTRL)
        + bit_transition(cur, new, ALT) + bit_transition(cur, new, NUM_LOCK) + bit_transition(cur, new, SUPER)
        + bit_transition(cur, new, ALTGR)
}

fn push_bit_transition(events: &mut Vec<(VirtualKey, bool)>, cur: KeyModifier, new: KeyModifier, m: KeyModifier)
    requires
        m == SHIFT || m == CAPS_LOCK || m == CTRL || m == ALT || m == NUM_LOCK || m == SUPER || m == ALTGR,
    ensures
        final(events)@ == old(events)@ + bit_transition(cur, new, m),
{
    if (cur ^ new) & m != 0 {
        let keys = modifier_keys(m);
        events.push((keys[0], new & m != 0));
    }
}

/// The key presses and releases that change the held modifiers from `cur` to
/// `new` (what the compositor and the uinput device are sent on a modifier
/// change).
pub fn modifier_key_events(cur: KeyModifier, new: KeyModifier) -> (events: Vec<(VirtualKey, bool)>)
    ensures
        events@ == modifier_transitions(cur, new),
{
    let mut events: Vec<(VirtualKey, bool)> = Vec::new();
    push_bit_transition(&mut events, cur, new, SHIFT);
    push_bit_transition(&mut events, cur, new, CAPS_LOCK);
    push_bit_transition(&mut events, cur, new, CTRL);
    push_bit_transition(&mut events, cur, new, ALT);
    push_bit_transition(&mut events, cur, new, NUM_LOCK);
    push_bit_transition(&mut events, cur, new, SUPER);
    push_bit_transition(&mut events, cur, new, ALTGR);
    assert(events@ =~= modifier_transitions(cur, new));
    events
}

/// The modifier state after one key event, when keys hold modifiers while down.
pub open spec fn apply_key_event(mods: KeyModifier, e: (VirtualKey, bool)) -> KeyModifier {
    match spec_key_modifier(e.0) {
        Some(m) => if e.1 { mods | m } else { mods & !m },
        None => mods,
    }
}

/// The modifier state after a sequence of key events.
pub open spec fn apply_key_events(mods: KeyModifier, es: Seq<(VirtualKey, bool)>) -> KeyModifier
    decreases es.len(),
{
    if es.len() == 0 {
        mods
    } else {
        apply_key_events(apply_key_event(mods, es[0]), es.drop_first())
    }
}

proof fn lemma_apply_concat(mods: KeyModifier, a: Seq<(VirtualKey, bool)>, b: Seq<(VirtualKey, bool)>)
    ensures
        apply_key_events(mods, a + b) == apply_key_events(apply_key_events(mods, a), b),
    decreases a.len(),
{
    if a.len() == 0 {
        assert(a + b =~= b);
    } else {
        assert((a + b).drop_first() =~= a.drop_first() + b);
        lemma_apply_concat(apply_key_event(mods, a[0]), a.drop_first(), b);
    }
}

spec fn bit_step(x: KeyModifier, cur: KeyModifier, new: KeyModifier, m: KeyModifier) -> KeyModifier {
    if (cur ^ new) & m != 0 {
        if new & m != 0 { x | m } else { x & !m }
    } else {
        x
    }
}

proof fn lemma_apply_bit_transition(x: KeyModifier, cur: KeyModifier, new: KeyModifier, m: KeyModifier)
    requires
        m == SHIFT || m == CAPS_LOCK || m == CTRL || m == ALT || m == NUM_LOCK || m == SUPER || m == ALTGR,
    ensures
        apply_key_events(x, bit_transition(cur, new, m)) == bit_step(x, cur, new, m),
{
    let es = bit_transition(cur, new, m);
    reveal_with_fuel(apply_key_events, 2);
    if (cur ^ new) & m != 0 {
        assert(es.drop_first() =~= Seq::<(VirtualKey, bool)>::empty());
        assert(spec_key_modifier(spec_modifier_keys(m)[0]) == Some(m));
    }
}

proof fn lemma_seven_steps(cur: KeyModifier, new: KeyModifier)
    ensures
        bit_step(bit_step(bit_step(bit_step(bit_step(bit_step(bit_step(cur, cur, new, 0x01), cur, new, 0x02),
            cur, new, 0x04), cur, new, 0x08), cur, new, 0x10), cur, new, 0x40), cur, new, 0x80)
            == (new & !0x20u8) | (cur & 0x20u8),
{
    assert(
        bit_step(bit_step(bit_step(bit_step(bit_step(bit_step(bit_step(cur, cur, new, 0x01), cur, new, 0x02),
            cur, new, 0x04), cur, new, 0x08), cur, new, 0x10), cur, new, 0x40), cur, new, 0x80)
            == (new & !0x20u8) | (cur & 0x20u8)) by (bit_vector);
}

/// Sending the events of [`modifier_key_events`] to a keyboard whose modifiers
/// are `cur` leaves it with the modifiers `new`; the one bit that no key
/// produces (0x20) keeps its old value.
pub proof fn law_modifier_events_reach_target(cur: KeyModifier, new: KeyModifier)
    ensures
        apply_key_events(cur, modifier_transitions(cur, new)) == (new & !0x20u8) | (cur & 0x20u8),
{
    let t1 = bit_transition(cur, new, SHIFT);
    let t2 = bit_transition(cur, new, CAPS_LOCK);
    let t3 = bit_transition(cur, new, CTRL);
    let t4 = bit_transition(cur, new, ALT);
    let t5 = bit_transition(cur, new, NUM_LOCK);
    let t6 = bit_transition(cur, new, SUPER);
    let t7 = bit_transition(cur, new, ALTGR);
    lemma_apply_concat(cur, t1 + t2 + t3 + t4 + t5 + t6, t7);
    lemma_apply_concat(cur, t1 + t2 + t3 + t4 + t5, t6);
    lemma_apply_concat(cur, t1 + t2 + t3 + t4, t5);
    lemma_apply_concat(cur, t1 + t2 + t3, t4);
    lemma_apply_concat(cur, t1 + t2, t3);
    lemma_apply_concat(cur, t1, t2);
    let x1 = bit_step(cur, cur, new, SHIFT);
    lemma_apply_bit_transition(cur, cur, new, SHIFT);
    let x2 = bit_step(x1, cur, new, CAPS_LOCK);
    lemma_apply_bit_transition(x1, cur, new, CAPS_LOCK);
    let x3 = bit_step(x2, cur, new, CTRL);
    lemma_apply_bit_transition(x2, cur, new, CTRL);
    let x4 = bit_step(x3, cur, new, ALT);
    lemma_apply_bit_transition(x3, cur, new, ALT);
    let x5 = bit_step(x4, cur, new, NUM_LOCK);
    lemma_apply_bit_transition(x4, cur, new, NUM_LOCK);
    let x6 = bit_step(x5, cur, new, SUPER);
    lemma_apply_bit_transition(x5, cur, new, SUPER);
    lemma_apply_bit_transition(x6, cur, new, ALTGR);
    lemma_seven_steps(cur, new);
}


/// Modifier state of a virtual keyboard after one key event: a locking
/// modifier (caps/num lock) toggles on press and ignores the release, any other
/// modifier is held while its key is down.
pub open spec fn spec_virtual_mods_after_key(state: KeyModifier, key: VirtualKey, down: bool) -> KeyModifier {
    match spec_key_modifier(key) {
        Some(m) => if m & LOCKED != 0 {
            if down { state ^ m } else { state }
        } else {
            if down { state | m } else { state & !m }
        },
        None => state,
    }
}

/// Executable form of [`spec_virtual_mods_after_key`].
pub fn virtual_mods_after_key(state: KeyModifier, key: VirtualKey, down: bool) -> (r: KeyModifier)
    ensures
        r == spec_virtual_mods_after_key(state, key, down),
{
    match key_modifier(key) {
        Some(m) => {
            if m & LOCKED != 0 {
                if down { state ^ m } else { state }
            } else {
                if down { state | m } else { state & !m }
            }
        },
        None => state,
    }
}

/// Pressing and then releasing a modifier key: a held modifier ends released,
/// a locking modifier ends toggled, every other bit is unchanged.
pub proof fn law_virtual_press_release(state: KeyModifier, key: VirtualKey)
    requires
        spec_key_modifier(key) is Some,
    ensures
        ({
            let m = spec_key_modifier(key)->0;
            let after = spec_virtual_mods_after_key(spec_virtual_mods_after_key(state, key, true), key, false);
            &&& m & LOCKED != 0 ==> after == state ^ m
            &&& m & LOCKED == 0 ==> after == state & !m
        }),
{
    let m = spec_key_modifier(key)->0;
    assert(m == SHIFT || m == CAPS_LOCK || m == CTRL || m == ALT || m == NUM_LOCK || m == SUPER || m == ALTGR);
    assert(forall|x: u8, y: u8| #![auto] (x | y) & !y == x & !y) by (bit_vector);
}

/// What a virtual keyboard is sent to move its modifier state from `state` to
/// `mods`: key events for the held modifiers that changed (shift, ctrl, alt,
/// super), then the depressed and locked modifier masks.
pub struct VirtualModifierUpdate {
    pub keys: Vec<(VirtualKey, bool)>,
    pub depressed: u32,
    pub locked: u32,
}

/// The held-modifier key events of [`virtual_modifier_update`].
pub open spec fn held_transitions(state: KeyModifier, mods: KeyModifier) -> Seq<(VirtualKey, bool)> {
    bit_transition(state, mods, SHIFT) + bit_transition(state, mods, CTRL) + bit_transition(state, mods, ALT)
        + bit_transition(state, mods, SUPER)
}

/// The update that a virtual keyboard in modifier state `state` is sent when
/// the modifiers are set to `mods`.
pub fn virtual_modifier_update(state: KeyModifier, mods: KeyModifier) -> (u: VirtualModifierUpdate)
    ensures
        u.keys@ == held_transitions(state, mods),
        u.depressed == (mods & !LOCKED) as u32,
        u.locked == (mods & LOCKED) as u32,
{
    let mut keys: Vec<(VirtualKey, bool)> = Vec::new();
    push_bit_transition(&mut keys, state, mods, SHIFT);
    push_bit_transition(&mut keys, state, mods, CTRL);
    push_bit_transition(&mut keys, state, mods, ALT);
    push_bit_transition(&mut keys, state, mods, SUPER);
    assert(keys@ =~= held_transitions(state, mods));
    VirtualModifierUpdate {
        keys,
        depressed: (mods & !LOCKED) as u32,
        locked: (mods & LOCKED) as u32,
    }
}

/// One output of a coalesced mouse frame.
#[derive(Debug)]
pub enum MouseCommand<P, W> {
    Move(P),
    Button { button: u16, down: bool },
    Scroll(W),
}

/// The mouse requests of one frame, coalesced: the first position, the first
/// button and the first scroll win; a button press moves to the last requested
/// position; a scroll drops the pending motion.
pub struct MouseAction<P, W> {
    pub last_requested_pos: Option<P>,
    pub pos: Option<P>,
    pub button: Option<(u16, bool)>,
    pub scroll: Option<W>,
}

impl<P: Copy, W> MouseAction<P, W> {
    /// An empty frame.
    pub fn new() -> (a: Self)
        ensures
            a.last_requested_pos is None,
            a.pos is None,
            a.button is None,
            a.scroll is None,
    {
        MouseAction { last_requested_pos: None, pos: None, button: None, scroll: None }
    }

    /// Requests a pointer move.
    pub fn mouse_move(&mut self, pos: P)
        ensures
            final(self).last_requested_pos == Some(pos),
            final(self).pos == if old(self).pos is None && old(self).scroll is None {
                Some(pos)
            } else {
                old(self).pos
            },
            final(self).button == old(self).button,
            final(self).scroll == old(self).scroll,
    {
        if self.pos.is_none() && self.scroll.is_none() {
            self.pos = Some(pos);
        }
        self.last_requested_pos = Some(pos);
    }

    /// Requests a button change.
    pub fn send_button(&mut self, button: u16, down: bool)
        ensures
            old(self).button is None ==> final(self).button == Some((button, down))
                && final(self).pos == old(self).last_requested_pos,
            old(self).button is Some ==> final(self).button == old(self).button
                && final(self).pos == old(self).pos,
            final(self).last_requested_pos == old(self).last_requested_pos,
            final(self).scroll == old(self).scroll,
    {
        if self.button.is_none() {
            self.button = Some((button, down));
            self.pos = self.last_requested_pos;
        }
    }

    /// Requests a scroll; pending motion is dropped so that the scroll is not
    /// mistaken for a drag.
    pub fn wheel(&mut self, delta: W)
        ensures
            old(self).scroll is None ==> final(self).scroll == Some(delta) && final(self).pos is None,
            old(self).scroll is Some ==> final(self).scroll == old(self).scroll
                && final(self).pos == old(self).pos,
            final(self).last_requested_pos == old(self).last_requested_pos,
            final(self).button == old(self).button,
    {
        if self.scroll.is_none() {
            self.scroll = Some(delta);
            self.pos = None;
        }
    }

    /// Emits the frame (move, then button, then scroll, each only if pending)
    /// and clears the pending requests.
    pub fn commit(&mut self) -> (cmds: Vec<MouseCommand<P, W>>)
        ensures
            cmds@ == (match old(self).pos { Some(p) => seq![MouseCommand::Move(p)], None => seq![] })
                + (match old(self).button {
                    Some(b) => seq![MouseCommand::Button { button: b.0, down: b.1 }],
                    None => seq![],
                }) + (match old(self).scroll { Some(w) => seq![MouseCommand::Scroll(w)], None => seq![] }),
            final(self).pos is None,
            final(self).button is None,
            final(self).scroll is None,
            final(self).last_requested_pos == old(self).last_requested_pos,
    {
        let mut cmds: Vec<MouseCommand<P, W>> = Vec::new();
        if let Some(p) = self.pos.take() {
            cmds.push(MouseCommand::Move(p));
        }
        if let Some(b) = self.button.take() {
            cmds.push(MouseCommand::Button { button: b.0, down: b.1 });
        }
        if let Some(w) = self.scroll.take() {
            cmds.push(MouseCommand::Scroll(w));
        }
        proof {
            let ghost_expected = (match old(self).pos { Some(p) => seq![MouseCommand::Move(p)], None => seq![] })
                + (match old(self).button {
                    Some(b) => seq![MouseCommand::Button { button: b.0, down: b.1 }],
                    None => seq![],
                }) + (match old(self).scroll { Some(w) => seq![MouseCommand::Scroll(w)], None => seq![] });
            assert(cmds@ =~= ghost_expected);
        }
        cmds
    }
}

} // verus!
