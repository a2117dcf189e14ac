//! The key registry: a static mapping from lowercase key names to key
//! identifiers. Lookup is case-insensitive (the name is lowercased first).

use vstd::prelude::*;

verus! {

/// Identifier of a physical key, as the device backend understands it.
#[derive(Clone, Copy, PartialEq, Eq, Structural, Debug)]
pub enum KeyId {
    A,
    B,
    C,
    D,
    E,
    F,
    G,
    H,
    I,
    J,
    K,
    L,
    M,
    N,
    O,
    P,
    Q,
    R,
    S,
    T,
    U,
    V,
    W,
    X,
    Y,
    Z,
    Num0,
    Num1,
    Num2,
    Num3,
    Num4,
    Num5,
    Num6,
    Num7,
    Num8,
    Num9,
    F1,
    F2,
    F3,
    F4,
    F5,
    F6,
    F7,
    F8,
    F9,
    F10,
    F11,
    F12,
    F13,
    F14,
    F15,
    F16,
    F17,
    F18,
    F19,
    F20,
    F21,
    F22,
    F23,
    F24,
    Space,
    Enter,
    Tab,
    BackSpace,
    Esc,
    Delete,
    Insert,
    Home,
    End,
    PageUp,
    PageDown,
    Pause,
    ScrollLock,
    SysRq,
    Print,
    Left,
    Right,
    Up,
    Down,
    LeftShift,
    RightShift,
    LeftCtrl,
    RightCtrl,
    LeftAlt,
    RightAlt,
    LeftMeta,
    RightMeta,
    CapsLock,
    NumLock,
    Minus,
    Equal,
    LeftBrace,
    RightBrace,
    SemiColon,
    Apostrophe,
    Grave,
    BackSlash,
    Comma,
    Dot,
    Slash,
}

/// ASCII lowercasing of one character; anything but `A`..`Z` is unchanged.
pub open spec fn lower_char(c: char) -> char {
    if 'A' <= c && c <= 'Z' {
        (((c as u8) + 32) as char)
    } else {
        c
    }
}

/// ASCII lowercasing of a whole character sequence.
pub open spec fn lower(s: Seq<char>) -> Seq<char> {
    s.map_values(|c: char| lower_char(c))
}

/// Registry entries whose name is a single character: letters and digits.
pub open spec fn spec_lookup_single(c: char) -> Option<KeyId> {
    match c {
        'a' => Some(KeyId::A),
        'b' => Some(KeyId::B),
        'c' => Some(KeyId::C),
        'd' => Some(KeyId::D),
        'e' => Some(KeyId::E),
        'f' => Some(KeyId::F),
        'g' => Some(KeyId::G),
        'h' => Some(KeyId::H),
        'i' => Some(KeyId::I),
        'j' => Some(KeyId::J),
        'k' => Some(KeyId::K),
        'l' => Some(KeyId::L),
        'm' => Some(KeyId::M),
        'n' => Some(KeyId::N),
        'o' => Some(KeyId::O),
        'p' => Some(KeyId::P),
        'q' => Some(KeyId::Q),
        'r' => Some(KeyId::R),
        's' => Some(KeyId::S),
        't' => Some(KeyId::T),
        'u' => Some(KeyId::U),
        'v' => Some(KeyId::V),
        'w' => Some(KeyId::W),
        'x' => Some(KeyId::X),
        'y' => Some(KeyId::Y),
        'z' => Some(KeyId::Z),
        '0' => Some(KeyId::Num0),
        '1' => Some(KeyId::Num1),
        '2' => Some(KeyId::Num2),
        '3' => Some(KeyId::Num3),
        '4' => Some(KeyId::Num4),
        '5' => Some(KeyId::Num5),
        '6' => Some(KeyId::Num6),
        '7' => Some(KeyId::Num7),
        '8' => Some(KeyId::Num8),
        '9' => Some(KeyId::Num9),
        _ => None,
    }
}

/// Registry entries for the function keys `f1`..`f24`.
pub open spec fn spec_lookup_fkey(name: Seq<char>) -> Option<KeyId> {
    if name == "f1"@ {
        Some(KeyId::F1)
    } else if name == "f2"@ {
        Some(KeyId::F2)
    } else if name == "f3"@ {
        Some(KeyId::F3)
    } else if name == "f4"@ {
        Some(KeyId::F4)
    } else if name == "f5"@ {
        Some(KeyId::F5)
    } else if name == "f6"@ {
        Some(KeyId::F6)
    } else if name == "f7"@ {
        Some(KeyId::F7)
    } else if name == "f8"@ {
        Some(KeyId::F8)
    } else if name == "f9"@ {
        Some(KeyId::F9)
    } else if name == "f10"@ {
        Some(KeyId::F10)
    } else if name == "f11"@ {
        Some(KeyId::F11)
    } else if name == "f12"@ {
        Some(KeyId::F12)
    } else if name == "f13"@ {
        Some(KeyId::F13)
    } else if name == "f14"@ {
        Some(KeyId::F14)
    } else if name == "f15"@ {
        Some(KeyId::F15)
    } else if name == "f16"@ {
        Some(KeyId::F16)
    } else if name == "f17"@ {
        Some(KeyId::F17)
    } else if name == "f18"@ {
        Some(KeyId::F18)
    } else if name == "f19"@ {
        Some(KeyId::F19)
    } else if name == "f20"@ {
        Some(KeyId::F20)
    } else if name == "f21"@ {
        Some(KeyId::F21)
    } else if name == "f22"@ {
        Some(KeyId::F22)
    } else if name == "f23"@ {
        Some(KeyId::F23)
    } else if name == "f24"@ {
        Some(KeyId::F24)
    } else {
        None
    }
}

/// Registry entries with longer names: whitespace, navigation, modifier,
/// lock and punctuation keys. `return` and `esc` are aliases.
pub open spec fn spec_lookup_named(name: Seq<char>) -> Option<KeyId> {
    if name == "space"@ {
        Some(KeyId::Space)
    } else if name == "enter"@ {
        Some(KeyId::Enter)
    } else if name == "return"@ {
        Some(KeyId::Enter)
    } else if name == "tab"@ {
        Some(KeyId::Tab)
    } else if name == "backspace"@ {
        Some(KeyId::BackSpace)
    } else if name == "escape"@ {
        Some(KeyId::Esc)
    } else if name == "esc"@ {
        Some(KeyId::Esc)
    } else if name == "delete"@ {
        Some(KeyId::Delete)
    } else if name == "insert"@ {
        Some(KeyId::Insert)
    } else if name == "home"@ {
        Some(KeyId::Home)
    } else if name == "end"@ {
        Some(KeyId::End)
    } else if name == "pageup"@ {
        Some(KeyId::PageUp)
    } else if name == "pagedown"@ {
        Some(KeyId::PageDown)
    } else if name == "pause"@ {
        Some(KeyId::Pause)
    } else if name == "scrolllock"@ {
        Some(KeyId::ScrollLock)
    } else if name == "sysrq"@ {
        Some(KeyId::SysRq)
    } else if name == "print"@ {
        Some(KeyId::Print)
    } else if name == "left"@ {
        Some(KeyId::Left)
    } else if name == "right"@ {
        Some(KeyId::Right)
    } else if name == "up"@ {
        Some(KeyId::Up)
    } else if name == "down"@ {
        Some(KeyId::Down)
    } else if name == "leftshift"@ {
        Some(KeyId::LeftShift)
    } else if name == "rightshift"@ {
        Some(KeyId::RightShift)
    } else if name == "leftctrl"@ {
        Some(KeyId::LeftCtrl)
    } else if name == "rightctrl"@ {
        Some(KeyId::RightCtrl)
    } else if name == "leftalt"@ {
        Some(KeyId::LeftAlt)
    } else if name == "rightalt"@ {
        Some(KeyId::RightAlt)
    } else if name == "leftmeta"@ {
        Some(KeyId::LeftMeta)
    } else if name == "rightmeta"@ {
        Some(KeyId::RightMeta)
    } else if name == "capslock"@ {
        Some(KeyId::CapsLock)
    } else if name == "numlock"@ {
        Some(KeyId::NumLock)
    } else if name == "minus"@ {
        Some(KeyId::Minus)
    } else if name == "equal"@ {
        Some(KeyId::Equal)
    } else if name == "leftbrace"@ {
        Some(KeyId::LeftBrace)
    } else if name == "rightbrace"@ {
        Some(KeyId::RightBrace)
    } else if name == "semicolon"@ {
        Some(KeyId::SemiColon)
    } else if name == "apostrophe"@ {
        Some(KeyId::Apostrophe)
    } else if name == "grave"@ {
        Some(KeyId::Grave)
    } else if name == "backslash"@ {
        Some(KeyId::BackSlash)
    } else if name == "comma"@ {
        Some(KeyId::Comma)
    } else if name == "dot"@ {
        Some(KeyId::Dot)
    } else if name == "slash"@ {
        Some(KeyId::Slash)
    } else {
        None
    }
}

/// The whole registry, over an already-lowercased name.
pub open spec fn spec_lookup(name: Seq<char>) -> Option<KeyId> {
    if name.len() == 1 {
        spec_lookup_single(name[0])
    } else if spec_lookup_fkey(name) is Some {
        spec_lookup_fkey(name)
    } else {
        spec_lookup_named(name)
    }
}

/// Lowercases one character, `A`..`Z` only.
pub fn lower_char_x(c: char) -> (r: char)
    ensures
        r == lower_char(c),
{
    if 'A' <= c && c <= 'Z' {
        ((c as u8) + 32) as char
    } else {
        c
    }
}

/// Compares a name, lowercased, with an expected (lowercase) name.
pub fn eq_lowered(a: &str, b: &str) -> (r: bool)
    ensures
        r == (lower(a@) == b@),
{
    let n = a.unicode_len();
    let m = b.unicode_len();
    if n != m {
        assert(lower(a@) != b@) by {
            assert(lower(a@).len() == a@.len());
        }
        return false;
    }
    let mut i: usize = 0;
    while i < n
        invariant
            n == a@.len(),
            n == b@.len(),
            i <= n,
            forall|j: int| 0 <= j < i ==> lower_char(a@[j]) == b@[j],
        decreases n - i,
    {
        let ca = lower_char_x(a.get_char(i));
        let cb = b.get_char(i);
        if ca != cb {
            assert(lower(a@)[i as int] != b@[i as int]);
            return false;
        }
        i += 1;
    }
    assert(lower(a@) =~= b@);
    true
}

/// Case-insensitive lookup of the single-character registry entries.
pub fn lookup_single_char(c: char) -> (r: Option<KeyId>)
    ensures
        r == spec_lookup_single(lower_char(c)),
{
    let lc = lower_char_x(c);
    match lc {
        'a' => Some(KeyId::A),
        'b' => Some(KeyId::B),
        'c' => Some(KeyId::C),
        'd' => Some(KeyId::D),
        'e' => Some(KeyId::E),
        'f' => Some(KeyId::F),
        'g' => Some(KeyId::G),
        'h' => Some(KeyId::H),
        'i' => Some(KeyId::I),
        'j' => Some(KeyId::J),
        'k' => Some(KeyId::K),
        'l' => Some(KeyId::L),
        'm' => Some(KeyId::M),
        'n' => Some(KeyId::N),
        'o' => Some(KeyId::O),
        'p' => Some(KeyId::P),
        'q' => Some(KeyId::Q),
        'r' => Some(KeyId::R),
        's' => Some(KeyId::S),
        't' => Some(KeyId::T),
        'u' => Some(KeyId::U),
        'v' => Some(KeyId::V),
        'w' => Some(KeyId::W),
        'x' => Some(KeyId::X),
        'y' => Some(KeyId::Y),
        'z' => Some(KeyId::Z),
        '0' => Some(KeyId::Num0),
        '1' => Some(KeyId::Num1),
        '2' => Some(KeyId::Num2),
        '3' => Some(KeyId::Num3),
        '4' => Some(KeyId::Num4),
        '5' => Some(KeyId::Num5),
        '6' => Some(KeyId::Num6),
        '7' => Some(KeyId::Num7),
        '8' => Some(KeyId::Num8),
        '9' => Some(KeyId::Num9),
        _ => None,
    }
}

/// Case-insensitive lookup of the function keys.
fn lookup_fkey(name: &str) -> (r: Option<KeyId>)
    ensures
        r == spec_lookup_fkey(lower(name@)),
{
    if eq_lowered(name, "f1") {
        Some(KeyId::F1)
    } else if eq_lowered(name, "f2") {
        Some(KeyId::F2)
    } else if eq_lowered(name, "f3") {
        Some(KeyId::F3)
    } else if eq_lowered(name, "f4") {
        Some(KeyId::F4)
    } else if eq_lowered(name, "f5") {
        Some(KeyId::F5)
    } else if eq_lowered(name, "f6") {
        Some(KeyId::F6)
    } else if eq_lowered(name, "f7") {
        Some(KeyId::F7)
    } else if eq_lowered(name, "f8") {
        Some(KeyId::F8)
    } else if eq_lowered(name, "f9") {
        Some(KeyId::F9)
    } else if eq_lowered(name, "f10") {
        Some(KeyId::F10)
    } else if eq_lowered(name, "f11") {
        Some(KeyId::F11)
    } else if eq_lowered(name, "f12") {
        Some(KeyId::F12)
    } else if eq_lowered(name, "f13") {
        Some(KeyId::F13)
    } else if eq_lowered(name, "f14") {
        Some(KeyId::F14)
    } else if eq_lowered(name, "f15") {
        Some(KeyId::F15)
    } else if eq_lowered(name, "f16") {
        Some(KeyId::F16)
    } else if eq_lowered(name, "f17") {
        Some(KeyId::F17)
    } else if eq_lowered(name, "f18") {
        Some(KeyId::F18)
    } else if eq_lowered(name, "f19") {
        Some(KeyId::F19)
    } else if eq_lowered(name, "f20") {
        Some(KeyId::F20)
    } else if eq_lowered(name, "f21") {
        Some(KeyId::F21)
    } else if eq_lowered(name, "f22") {
        Some(KeyId::F22)
    } else if eq_lowered(name, "f23") {
        Some(KeyId::F23)
    } else if eq_lowered(name, "f24") {
        Some(KeyId::F24)
    } else {
        None
    }
}

/// Case-insensitive lookup of the longer-named registry entries.
fn lookup_named(name: &str) -> (r: Option<KeyId>)
    ensures
        r == spec_lookup_named(lower(name@)),
{
    if eq_lowered(name, "space") {
        Some(KeyId::Space)
    } else if eq_lowered(name, "enter") {
        Some(KeyId::Enter)
    } else if eq_lowered(name, "return") {
        Some(KeyId::Enter)
    } else if eq_lowered(name, "tab") {
        Some(KeyId::Tab)
    } else if eq_lowered(name, "backspace") {
        Some(KeyId::BackSpace)
    } else if eq_lowered(name, "escape") {
        Some(KeyId::Esc)
    } else if eq_lowered(name, "esc") {
        Some(KeyId::Esc)
    } else if eq_lowered(name, "delete") {
        Some(KeyId::Delete)
    } else if eq_lowered(name, "insert") {
        Some(KeyId::Insert)
    } else if eq_lowered(name, "home") {
        Some(KeyId::Home)
    } else if eq_lowered(name, "end") {
        Some(KeyId::End)
    } else if eq_lowered(name, "pageup") {
        Some(KeyId::PageUp)
    } else if eq_lowered(name, "pagedown") {
        Some(KeyId::PageDown)
    } else if eq_lowered(name, "pause") {
        Some(KeyId::Pause)
    } else if eq_lowered(name, "scrolllock") {
        Some(KeyId::ScrollLock)
    } else if eq_lowered(name, "sysrq") {
        Some(KeyId::SysRq)
    } else if eq_lowered(name, "print") {
        Some(KeyId::Print)
    } else if eq_lowered(name, "left") {
        Some(KeyId::Left)
    } else if eq_lowered(name, "right") {
        Some(KeyId::Right)
    } else if eq_lowered(name, "up") {
        Some(KeyId::Up)
    } else if eq_lowered(name, "down") {
        Some(KeyId::Down)
    } else if eq_lowered(name, "leftshift") {
        Some(KeyId::LeftShift)
    } else if eq_lowered(name, "rightshift") {
        Some(KeyId::RightShift)
    } else if eq_lowered(name, "leftctrl") {
        Some(KeyId::LeftCtrl)
    } else if eq_lowered(name, "rightctrl") {
        Some(KeyId::RightCtrl)
    } else if eq_lowered(name, "leftalt") {
        Some(KeyId::LeftAlt)
    } else if eq_lowered(name, "rightalt") {
        Some(KeyId::RightAlt)
    } else if eq_lowered(name, "leftmeta") {
        Some(KeyId::LeftMeta)
    } else if eq_lowered(name, "rightmeta") {
        Some(KeyId::RightMeta)
    } else if eq_lowered(name, "capslock") {
        Some(KeyId::CapsLock)
    } else if eq_lowered(name, "numlock") {
        Some(KeyId::NumLock)
    } else if eq_lowered(name, "minus") {
        Some(KeyId::Minus)
    } else if eq_lowered(name, "equal") {
        Some(KeyId::Equal)
    } else if eq_lowered(name, "leftbrace") {
        Some(KeyId::LeftBrace)
    } else if eq_lowered(name, "rightbrace") {
        Some(KeyId::RightBrace)
    } else if eq_lowered(name, "semicolon") {
        Some(KeyId::SemiColon)
    } else if eq_lowered(name, "apostrophe") {
        Some(KeyId::Apostrophe)
    } else if eq_lowered(name, "grave") {
        Some(KeyId::Grave)
    } else if eq_lowered(name, "backslash") {
        Some(KeyId::BackSlash)
    } else if eq_lowered(name, "comma") {
        Some(KeyId::Comma)
    } else if eq_lowered(name, "dot") {
        Some(KeyId::Dot)
    } else if eq_lowered(name, "slash") {
        Some(KeyId::Slash)
    } else {
        None
    }
}

/// Case-insensitive registry lookup: the name is lowercased, then matched
/// against the fixed table of key names.
pub fn lookup_key(name: &str) -> (r: Option<KeyId>)
    ensures
        r == spec_lookup(lower(name@)),
{
    let n = name.unicode_len();
    if n == 1 {
        assert(lower(name@).len() == 1);
        lookup_single_char(name.get_char(0))
    } else {
        assert(lower(name@).len() != 1);
        match lookup_fkey(name) {
            Some(k) => Some(k),
            None => lookup_named(name),
        }
    }
}

} // verus!
