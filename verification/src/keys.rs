//! Keys, modifier sets and chords.
//!
//! [`Key`] lists the same keys as `egui::Key`, in the order of `egui::Key::ALL`,
//! so every key egui reports is representable and its name always comes from
//! egui itself.

use vstd::prelude::*;

verus! {

/// How many keys `egui::Key::ALL` lists.
pub const KEY_COUNT: u8 = 145;

/// The English name egui gives the key at position `index` of `egui::Key::ALL`.
pub uninterp spec fn egui_key_name(index: u8) -> Seq<char>;

/// Calls `egui::Key::name` on the key at position `index` of `egui::Key::ALL`.
///
/// Trusted: the returned text is egui's own table, named by `egui_key_name`;
/// nothing here states what any particular name is.
#[verifier::external_body]
fn egui_name_at(index: u8) -> (name: &'static str)
    requires
        index < KEY_COUNT,
    ensures
        name@ == egui_key_name(index),
{
    egui::Key::ALL[index as usize].name()
}

/// One physical key. The variants follow `egui::Key::ALL`, one for one.
#[derive(Clone, Copy, Debug, PartialEq, Eq, Hash, Structural)]
pub enum Key {
    ArrowDown,
    ArrowLeft,
    ArrowRight,
    ArrowUp,
    Escape,
    Tab,
    Backspace,
    Enter,
    Insert,
    Delete,
    Home,
    End,
    PageUp,
    PageDown,
    Copy,
    Cut,
    Paste,
    Space,
    Colon,
    Comma,
    Minus,
    Period,
    Plus,
    Equals,
    Semicolon,
    OpenBracket,
    CloseBracket,
    OpenCurlyBracket,
    CloseCurlyBracket,
    Backtick,
    Backslash,
    Slash,
    Pipe,
    Questionmark,
    Exclamationmark,
    Quote,
    Num0,
    Num1,
    Num2,
    Num3,
    Num4,
    Num5,
    Num6,
    Num7,
    Num8,
    Num9,
    A,
    B,
    C,
    D,
    E,
    F,
    G,
    H,
    I,
    J,
    K,
    L,
    M,
    N,
    O,
    P,
    Q,
    R,
    S,
    T,
    U,
    V,
    W,
    X,
    Y,
    Z,
    F1,
    F2,
    F3,
    F4,
    F5,
    F6,
    F7,
    F8,
    F9,
    F10,
    F11,
    F12,
    F13,
    F14,
    F15,
    F16,
    F17,
    F18,
    F19,
    F20,
    F21,
    F22,
    F23,
    F24,
    F25,
    F26,
    F27,
    F28,
    F29,
    F30,
    F31,
    F32,
    F33,
    F34,
    F35,
    BrowserBack,
    BrowserForward,
    BrowserRefresh,
    BrowserSearch,
    BrowserHome,
    BrowserFavorites,
    BrowserStop,
    MediaPlayPause,
    MediaTrackNext,
    MediaTrackPrevious,
    MediaStop,
    AudioVolumeMute,
    AudioVolumeDown,
    AudioVolumeUp,
    LaunchMail,
    LaunchApp1,
    LaunchApp2,
    ShiftLeft,
    ShiftRight,
    ControlLeft,
    ControlRight,
    AltLeft,
    AltRight,
    SuperLeft,
    SuperRight,
    IntlBackslash,
    CapsLock,
    NumLock,
    ScrollLock,
    PrintScreen,
    Pause,
    Menu,
    Fn,
    Eject,
    Help,
    Power,
    Sleep,
    Clear,
}

impl Key {
    /// The key's position in `egui::Key::ALL`.
    pub open spec fn spec_index(self) -> u8 {
        match self {
            Key::ArrowDown => 0,
            Key::ArrowLeft => 1,
            Key::ArrowRight => 2,
            Key::ArrowUp => 3,
            Key::Escape => 4,
            Key::Tab => 5,
            Key::Backspace => 6,
            Key::Enter => 7,
            Key::Insert => 8,
            Key::Delete => 9,
            Key::Home => 10,
            Key::End => 11,
            Key::PageUp => 12,
            Key::PageDown => 13,
            Key::Copy => 14,
            Key::Cut => 15,
            Key::Paste => 16,
            Key::Space => 17,
            Key::Colon => 18,
            Key::Comma => 19,
            Key::Minus => 20,
            Key::Period => 21,
            Key::Plus => 22,
            Key::Equals => 23,
            Key::Semicolon => 24,
            Key::OpenBracket => 25,
            Key::CloseBracket => 26,
            Key::OpenCurlyBracket => 27,
            Key::CloseCurlyBracket => 28,
            Key::Backtick => 29,
            Key::Backslash => 30,
            Key::Slash => 31,
            Key::Pipe => 32,
            Key::Questionmark => 33,
            Key::Exclamationmark => 34,
            Key::Quote => 35,
            Key::Num0 => 36,
            Key::Num1 => 37,
            Key::Num2 => 38,
            Key::Num3 => 39,
            Key::Num4 => 40,
            Key::Num5 => 41,
            Key::Num6 => 42,
            Key::Num7 => 43,
            Key::Num8 => 44,
            Key::Num9 => 45,
            Key::A => 46,
            Key::B => 47,
            Key::C => 48,
            Key::D => 49,
            Key::E => 50,
            Key::F => 51,
            Key::G => 52,
            Key::H => 53,
            Key::I => 54,
            Key::J => 55,
            Key::K => 56,
            Key::L => 57,
            Key::M => 58,
            Key::N => 59,
            Key::O => 60,
            Key::P => 61,
            Key::Q => 62,
            Key::R => 63,
            Key::S => 64,
            Key::T => 65,
            Key::U => 66,
            Key::V => 67,
            Key::W => 68,
            Key::X => 69,
            Key::Y => 70,
            Key::Z => 71,
            Key::F1 => 72,
            Key::F2 => 73,
            Key::F3 => 74,
            Key::F4 => 75,
            Key::F5 => 76,
            Key::F6 => 77,
            Key::F7 => 78,
            Key::F8 => 79,
            Key::F9 => 80,
            Key::F10 => 81,
            Key::F11 => 82,
            Key::F12 => 83,
            Key::F13 => 84,
            Key::F14 => 85,
            Key::F15 => 86,
            Key::F16 => 87,
            Key::F17 => 88,
            Key::F18 => 89,
            Key::F19 => 90,
            Key::F20 => 91,
            Key::F21 => 92,
            Key::F22 => 93,
            Key::F23 => 94,
            Key::F24 => 95,
            Key::F25 => 96,
            Key::F26 => 97,
            Key::F27 => 98,
            Key::F28 => 99,
            Key::F29 => 100,
            Key::F30 => 101,
            Key::F31 => 102,
            Key::F32 => 103,
            Key::F33 => 104,
            Key::F34 => 105,
            Key::F35 => 106,
            Key::BrowserBack => 107,
            Key::BrowserForward => 108,
            Key::BrowserRefresh => 109,
            Key::BrowserSearch => 110,
            Key::BrowserHome => 111,
            Key::BrowserFavorites => 112,
            Key::BrowserStop => 113,
            Key::MediaPlayPause => 114,
            Key::MediaTrackNext => 115,
            Key::MediaTrackPrevious => 116,
            Key::MediaStop => 117,
            Key::AudioVolumeMute => 118,
            Key::AudioVolumeDown => 119,
            Key::AudioVolumeUp => 120,
            Key::LaunchMail => 121,
            Key::LaunchApp1 => 122,
            Key::LaunchApp2 => 123,
            Key::ShiftLeft => 124,
            Key::ShiftRight => 125,
            Key::ControlLeft => 126,
            Key::ControlRight => 127,
            Key::AltLeft => 128,
            Key::AltRight => 129,
            Key::SuperLeft => 130,
            Key::SuperRight => 131,
            Key::IntlBackslash => 132,
            Key::CapsLock => 133,
            Key::NumLock => 134,
            Key::ScrollLock => 135,
            Key::PrintScreen => 136,
            Key::Pause => 137,
            Key::Menu => 138,
            Key::Fn => 139,
            Key::Eject => 140,
            Key::Help => 141,
            Key::Power => 142,
            Key::Sleep => 143,
            Key::Clear => 144,
        }
    }

    /// The key's position in `egui::Key::ALL`.
    pub fn index(self) -> (i: u8)
        ensures
            i == self.spec_index(),
            i < KEY_COUNT,
    {
        match self {
            Key::ArrowDown => 0,
            Key::ArrowLeft => 1,
            Key::ArrowRight => 2,
            Key::ArrowUp => 3,
            Key::Escape => 4,
            Key::Tab => 5,
            Key::Backspace => 6,
            Key::Enter => 7,
            Key::Insert => 8,
            Key::Delete => 9,
            Key::Home => 10,
            Key::End => 11,
            Key::PageUp => 12,
            Key::PageDown => 13,
            Key::Copy => 14,
            Key::Cut => 15,
            Key::Paste => 16,
            Key::Space => 17,
            Key::Colon => 18,
            Key::Comma => 19,
            Key::Minus => 20,
            Key::Period => 21,
            Key::Plus => 22,
            Key::Equals => 23,
            Key::Semicolon => 24,
            Key::OpenBracket => 25,
            Key::CloseBracket => 26,
            Key::OpenCurlyBracket => 27,
            Key::CloseCurlyBracket => 28,
            Key::Backtick => 29,
            Key::Backslash => 30,
            Key::Slash => 31,
            Key::Pipe => 32,
            Key::Questionmark => 33,
            Key::Exclamationmark => 34,
            Key::Quote => 35,
            Key::Num0 => 36,
            Key::Num1 => 37,
            Key::Num2 => 38,
            Key::Num3 => 39,
            Key::Num4 => 40,
            Key::Num5 => 41,
            Key::Num6 => 42,
            Key::Num7 => 43,
            Key::Num8 => 44,
            Key::Num9 => 45,
            Key::A => 46,
            Key::B => 47,
            Key::C => 48,
            Key::D => 49,
            Key::E => 50,
            Key::F => 51,
            Key::G => 52,
            Key::H => 53,
            Key::I => 54,
            Key::J => 55,
            Key::K => 56,
            Key::L => 57,
            Key::M => 58,
            Key::N => 59,
            Key::O => 60,
            Key::P => 61,
            Key::Q => 62,
            Key::R => 63,
            Key::S => 64,
            Key::T => 65,
            Key::U => 66,
            Key::V => 67,
            Key::W => 68,
            Key::X => 69,
            Key::Y => 70,
            Key::Z => 71,
            Key::F1 => 72,
            Key::F2 => 73,
            Key::F3 => 74,
            Key::F4 => 75,
            Key::F5 => 76,
            Key::F6 => 77,
            Key::F7 => 78,
            Key::F8 => 79,
            Key::F9 => 80,
            Key::F10 => 81,
            Key::F11 => 82,
            Key::F12 => 83,
            Key::F13 => 84,
            Key::F14 => 85,
            Key::F15 => 86,
            Key::F16 => 87,
            Key::F17 => 88,
            Key::F18 => 89,
            Key::F19 => 90,
            Key::F20 => 91,
            Key::F21 => 92,
            Key::F22 => 93,
            Key::F23 => 94,
            Key::F24 => 95,
            Key::F25 => 96,
            Key::F26 => 97,
            Key::F27 => 98,
            Key::F28 => 99,
            Key::F29 => 100,
            Key::F30 => 101,
            Key::F31 => 102,
            Key::F32 => 103,
            Key::F33 => 104,
            Key::F34 => 105,
            Key::F35 => 106,
            Key::BrowserBack => 107,
            Key::BrowserForward => 108,
            Key::BrowserRefresh => 109,
            Key::BrowserSearch => 110,
            Key::BrowserHome => 111,
            Key::BrowserFavorites => 112,
            Key::BrowserStop => 113,
            Key::MediaPlayPause => 114,
            Key::MediaTrackNext => 115,
            Key::MediaTrackPrevious => 116,
            Key::MediaStop => 117,
            Key::AudioVolumeMute => 118,
            Key::AudioVolumeDown => 119,
            Key::AudioVolumeUp => 120,
            Key::LaunchMail => 121,
            Key::LaunchApp1 => 122,
            Key::LaunchApp2 => 123,
            Key::ShiftLeft => 124,
            Key::ShiftRight => 125,
            Key::ControlLeft => 126,
            Key::ControlRight => 127,
            Key::AltLeft => 128,
            Key::AltRight => 129,
            Key::SuperLeft => 130,
            Key::SuperRight => 131,
            Key::IntlBackslash => 132,
            Key::CapsLock => 133,
            Key::NumLock => 134,
            Key::ScrollLock => 135,
            Key::PrintScreen => 136,
            Key::Pause => 137,
            Key::Menu => 138,
            Key::Fn => 139,
            Key::Eject => 140,
            Key::Help => 141,
            Key::Power => 142,
            Key::Sleep => 143,
            Key::Clear => 144,
        }
    }

    /// egui's human-readable name for the key: `"S"`, `"F2"`, `"Comma"`.
    pub fn name(self) -> (name: &'static str)
        ensures
            name@ == egui_key_name(self.spec_index()),
    {
        egui_name_at(self.index())
    }
}


impl Key {
    /// The key at position `index` of `egui::Key::ALL`, if there is one.
    pub fn from_index(index: u8) -> (key: Option<Key>)
        ensures
            key is Some <==> index < KEY_COUNT,
            key matches Some(k) ==> k.spec_index() == index,
    {
        match index {
            0 => Some(Key::ArrowDown),
            1 => Some(Key::ArrowLeft),
            2 => Some(Key::ArrowRight),
            3 => Some(Key::ArrowUp),
            4 => Some(Key::Escape),
            5 => Some(Key::Tab),
            6 => Some(Key::Backspace),
            7 => Some(Key::Enter),
            8 => Some(Key::Insert),
            9 => Some(Key::Delete),
            10 => Some(Key::Home),
            11 => Some(Key::End),
            12 => Some(Key::PageUp),
            13 => Some(Key::PageDown),
            14 => Some(Key::Copy),
            15 => Some(Key::Cut),
            16 => Some(Key::Paste),
            17 => Some(Key::Space),
            18 => Some(Key::Colon),
            19 => Some(Key::Comma),
            20 => Some(Key::Minus),
            21 => Some(Key::Period),
            22 => Some(Key::Plus),
            23 => Some(Key::Equals),
            24 => Some(Key::Semicolon),
            25 => Some(Key::OpenBracket),
            26 => Some(Key::CloseBracket),
            27 => Some(Key::OpenCurlyBracket),
            28 => Some(Key::CloseCurlyBracket),
            29 => Some(Key::Backtick),
            30 => Some(Key::Backslash),
            31 => Some(Key::Slash),
            32 => Some(Key::Pipe),
            33 => Some(Key::Questionmark),
            34 => Some(Key::Exclamationmark),
            35 => Some(Key::Quote),
            36 => Some(Key::Num0),
            37 => Some(Key::Num1),
            38 => Some(Key::Num2),
            39 => Some(Key::Num3),
            40 => Some(Key::Num4),
            41 => Some(Key::Num5),
            42 => Some(Key::Num6),
            43 => Some(Key::Num7),
            44 => Some(Key::Num8),
            45 => Some(Key::Num9),
            46 => Some(Key::A),
            47 => Some(Key::B),
            48 => Some(Key::C),
            49 => Some(Key::D),
            50 => Some(Key::E),
            51 => Some(Key::F),
            52 => Some(Key::G),
            53 => Some(Key::H),
            54 => Some(Key::I),
            55 => Some(Key::J),
            56 => Some(Key::K),
            57 => Some(Key::L),
            58 => Some(Key::M),
            59 => Some(Key::N),
            60 => Some(Key::O),
            61 => Some(Key::P),
            62 => Some(Key::Q),
            63 => Some(Key::R),
            64 => Some(Key::S),
            65 => Some(Key::T),
            66 => Some(Key::U),
            67 => Some(Key::V),
            68 => Some(Key::W),
            69 => Some(Key::X),
            70 => Some(Key::Y),
            71 => Some(Key::Z),
            72 => Some(Key::F1),
            73 => Some(Key::F2),
            74 => Some(Key::F3),
            75 => Some(Key::F4),
            76 => Some(Key::F5),
            77 => Some(Key::F6),
            78 => Some(Key::F7),
            79 => Some(Key::F8),
            80 => Some(Key::F9),
            81 => Some(Key::F10),
            82 => Some(Key::F11),
            83 => Some(Key::F12),
            84 => Some(Key::F13),
            85 => Some(Key::F14),
            86 => Some(Key::F15),
            87 => Some(Key::F16),
            88 => Some(Key::F17),
            89 => Some(Key::F18),
            90 => Some(Key::F19),
            91 => Some(Key::F20),
            92 => Some(Key::F21),
            93 => Some(Key::F22),
            94 => Some(Key::F23),
            95 => Some(Key::F24),
            96 => Some(Key::F25),
            97 => Some(Key::F26),
            98 => Some(Key::F27),
            99 => Some(Key::F28),
            100 => Some(Key::F29),
            101 => Some(Key::F30),
            102 => Some(Key::F31),
            103 => Some(Key::F32),
            104 => Some(Key::F33),
            105 => Some(Key::F34),
            106 => Some(Key::F35),
            107 => Some(Key::BrowserBack),
            108 => Some(Key::BrowserForward),
            109 => Some(Key::BrowserRefresh),
            110 => Some(Key::BrowserSearch),
            111 => Some(Key::BrowserHome),
            112 => Some(Key::BrowserFavorites),
            113 => Some(Key::BrowserStop),
            114 => Some(Key::MediaPlayPause),
            115 => Some(Key::MediaTrackNext),
            116 => Some(Key::MediaTrackPrevious),
            117 => Some(Key::MediaStop),
            118 => Some(Key::AudioVolumeMute),
            119 => Some(Key::AudioVolumeDown),
            120 => Some(Key::AudioVolumeUp),
            121 => Some(Key::LaunchMail),
            122 => Some(Key::LaunchApp1),
            123 => Some(Key::LaunchApp2),
            124 => Some(Key::ShiftLeft),
            125 => Some(Key::ShiftRight),
            126 => Some(Key::ControlLeft),
            127 => Some(Key::ControlRight),
            128 => Some(Key::AltLeft),
            129 => Some(Key::AltRight),
            130 => Some(Key::SuperLeft),
            131 => Some(Key::SuperRight),
            132 => Some(Key::IntlBackslash),
            133 => Some(Key::CapsLock),
            134 => Some(Key::NumLock),
            135 => Some(Key::ScrollLock),
            136 => Some(Key::PrintScreen),
            137 => Some(Key::Pause),
            138 => Some(Key::Menu),
            139 => Some(Key::Fn),
            140 => Some(Key::Eject),
            141 => Some(Key::Help),
            142 => Some(Key::Power),
            143 => Some(Key::Sleep),
            144 => Some(Key::Clear),
            _ => None,
        }
    }
}

/// The modifier keys held during a press, as far as a chord cares.
#[derive(Clone, Copy, Debug, PartialEq, Eq, Hash, Default, Structural)]
pub struct Modifiers {
    pub alt: bool,
    pub ctrl: bool,
    pub shift: bool,
}

impl Modifiers {
    /// No modifier held.
    pub fn none() -> (m: Modifiers)
        ensures
            !m.alt && !m.ctrl && !m.shift,
    {
        Modifiers { alt: false, ctrl: false, shift: false }
    }

    /// Ctrl alone.
    pub fn ctrl() -> (m: Modifiers)
        ensures
            !m.alt && m.ctrl && !m.shift,
    {
        Modifiers { alt: false, ctrl: true, shift: false }
    }

    /// Shift alone.
    pub fn shift() -> (m: Modifiers)
        ensures
            !m.alt && !m.ctrl && m.shift,
    {
        Modifiers { alt: false, ctrl: false, shift: true }
    }

    /// Alt alone.
    pub fn alt() -> (m: Modifiers)
        ensures
            m.alt && !m.ctrl && !m.shift,
    {
        Modifiers { alt: true, ctrl: false, shift: false }
    }

    /// Both sets held at once.
    pub fn plus(self, other: Modifiers) -> (m: Modifiers)
        ensures
            m.alt == (self.alt || other.alt),
            m.ctrl == (self.ctrl || other.ctrl),
            m.shift == (self.shift || other.shift),
    {
        Modifiers {
            alt: self.alt || other.alt,
            ctrl: self.ctrl || other.ctrl,
            shift: self.shift || other.shift,
        }
    }
}

/// A chord: one key plus the exact modifier set it fires under.
#[derive(Clone, Copy, Debug, PartialEq, Eq, Hash, Structural)]
pub struct Chord {
    pub key: Key,
    pub ctrl: bool,
    pub shift: bool,
    pub alt: bool,
}

/// The text a chord is displayed as: the held modifiers in the order
/// Ctrl, Shift, Alt, each followed by `+`, then the key's name.
pub open spec fn chord_label(c: Chord) -> Seq<char> {
    (if c.ctrl { "Ctrl+"@ } else { Seq::<char>::empty() })
        + (if c.shift { "Shift+"@ } else { Seq::<char>::empty() })
        + (if c.alt { "Alt+"@ } else { Seq::<char>::empty() })
        + egui_key_name(c.key.spec_index())
}

impl Chord {
    /// The key with no modifier.
    pub fn plain(key: Key) -> (c: Chord)
        ensures
            c == (Chord { key, ctrl: false, shift: false, alt: false }),
    {
        Chord { key, ctrl: false, shift: false, alt: false }
    }

    /// Ctrl plus the key.
    pub fn ctrl(key: Key) -> (c: Chord)
        ensures
            c == (Chord { key, ctrl: true, shift: false, alt: false }),
    {
        Chord { key, ctrl: true, shift: false, alt: false }
    }

    /// Ctrl and Shift plus the key.
    pub fn ctrl_shift(key: Key) -> (c: Chord)
        ensures
            c == (Chord { key, ctrl: true, shift: true, alt: false }),
    {
        Chord { key, ctrl: true, shift: true, alt: false }
    }

    /// Whether `mods` is exactly this chord's modifier set.
    pub open spec fn spec_matches(self, mods: Modifiers) -> bool {
        mods.ctrl == self.ctrl && mods.shift == self.shift && mods.alt == self.alt
    }

    /// Does `mods` match this chord exactly? `S` does not fire under `Ctrl+S`.
    pub fn matches(&self, mods: &Modifiers) -> (r: bool)
        ensures
            r == self.spec_matches(*mods),
    {
        mods.ctrl == self.ctrl && mods.shift == self.shift && mods.alt == self.alt
    }

    /// Human-readable, for menus and the keymap editor: `"Ctrl+Shift+S"`.
    pub fn label(&self) -> (s: String)
        ensures
            s@ == chord_label(*self),
    {
        let mut out = String::new();
        if self.ctrl {
            out.append("Ctrl+");
        }
        if self.shift {
            out.append("Shift+");
        }
        if self.alt {
            out.append("Alt+");
        }
        out.append(self.key.name());
        proof {
            assert(out@ =~= chord_label(*self));
        }
        out
    }
}

} // verus!
