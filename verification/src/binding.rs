//! Key bindings: a primary key with modifiers, as they are kept, as the settings page writes them,
//! and how one becomes the other.
use vstd::prelude::*;
use vstd::string::*;

use crate::text::{glue, same};

verus! {

// ----- keys -----

/// The keys of a keyboard.
#[derive(Clone, Copy, PartialEq, Eq, Structural, Debug)]
pub enum Key {
    Space,
    Tab,
    Escape,
    Return,
    Backspace,
    KeyA,
    KeyB,
    KeyC,
    KeyD,
    KeyE,
    KeyF,
    KeyG,
    KeyH,
    KeyI,
    KeyJ,
    KeyK,
    KeyL,
    KeyM,
    KeyN,
    KeyO,
    KeyP,
    KeyQ,
    KeyR,
    KeyS,
    KeyT,
    KeyU,
    KeyV,
    KeyW,
    KeyX,
    KeyY,
    KeyZ,
    Num0,
    Num1,
    Num2,
    Num3,
    Num4,
    Num5,
    Num6,
    Num7,
    Num8,
    Num9,
    F1,
    F2,
    F3,
    F4,
    F5,
    F6,
    F7,
    F8,
    F9,
    F10,
    F11,
    F12,
    Dot,
    Comma,
    SemiColon,
    Quote,
    LeftBracket,
    RightBracket,
    BackSlash,
    Slash,
    Minus,
    Equal,
    BackQuote,
    ControlLeft,
    ControlRight,
    ShiftLeft,
    ShiftRight,
    Alt,
    AltGr,
    MetaLeft,
    MetaRight,
    /// Any other key, by the number that the system gives it.
    Unknown(u32),
}

/// What the settings page calls a key; other keys have no name there.
pub open spec fn code_of(key: Key) -> Option<Seq<char>> {
    match key {
        Key::Space => Some("Space"@),
        Key::Tab => Some("Tab"@),
        Key::Escape => Some("Escape"@),
        Key::Return => Some("Enter"@),
        Key::Backspace => Some("Backspace"@),
        Key::KeyA => Some("KeyA"@),
        Key::KeyB => Some("KeyB"@),
        Key::KeyC => Some("KeyC"@),
        Key::KeyD => Some("KeyD"@),
        Key::KeyE => Some("KeyE"@),
        Key::KeyF => Some("KeyF"@),
        Key::KeyG => Some("KeyG"@),
        Key::KeyH => Some("KeyH"@),
        Key::KeyI => Some("KeyI"@),
        Key::KeyJ => Some("KeyJ"@),
        Key::KeyK => Some("KeyK"@),
        Key::KeyL => Some("KeyL"@),
        Key::KeyM => Some("KeyM"@),
        Key::KeyN => Some("KeyN"@),
        Key::KeyO => Some("KeyO"@),
        Key::KeyP => Some("KeyP"@),
        Key::KeyQ => Some("KeyQ"@),
        Key::KeyR => Some("KeyR"@),
        Key::KeyS => Some("KeyS"@),
        Key::KeyT => Some("KeyT"@),
        Key::KeyU => Some("KeyU"@),
        Key::KeyV => Some("KeyV"@),
        Key::KeyW => Some("KeyW"@),
        Key::KeyX => Some("KeyX"@),
        Key::KeyY => Some("KeyY"@),
        Key::KeyZ => Some("KeyZ"@),
        Key::Num0 => Some("Digit0"@),
        Key::Num1 => Some("Digit1"@),
        Key::Num2 => Some("Digit2"@),
        Key::Num3 => Some("Digit3"@),
        Key::Num4 => Some("Digit4"@),
        Key::Num5 => Some("Digit5"@),
        Key::Num6 => Some("Digit6"@),
        Key::Num7 => Some("Digit7"@),
        Key::Num8 => Some("Digit8"@),
        Key::Num9 => Some("Digit9"@),
        Key::F1 => Some("F1"@),
        Key::F2 => Some("F2"@),
        Key::F3 => Some("F3"@),
        Key::F4 => Some("F4"@),
        Key::F5 => Some("F5"@),
        Key::F6 => Some("F6"@),
        Key::F7 => Some("F7"@),
        Key::F8 => Some("F8"@),
        Key::F9 => Some("F9"@),
        Key::F10 => Some("F10"@),
        Key::F11 => Some("F11"@),
        Key::F12 => Some("F12"@),
        Key::Dot => Some("Period"@),
        Key::Comma => Some("Comma"@),
        Key::SemiColon => Some("Semicolon"@),
        Key::Quote => Some("Quote"@),
        Key::LeftBracket => Some("BracketLeft"@),
        Key::RightBracket => Some("BracketRight"@),
        Key::BackSlash => Some("Backslash"@),
        Key::Slash => Some("Slash"@),
        Key::Minus => Some("Minus"@),
        Key::Equal => Some("Equal"@),
        Key::BackQuote => Some("Backquote"@),
        Key::ControlLeft => Some("ControlLeft"@),
        Key::ControlRight => Some("ControlRight"@),
        Key::ShiftLeft => Some("ShiftLeft"@),
        Key::ShiftRight => Some("ShiftRight"@),
        Key::Alt => Some("AltLeft"@),
        Key::AltGr => Some("AltRight"@),
        Key::MetaLeft => Some("MetaLeft"@),
        Key::MetaRight => Some("MetaRight"@),
        Key::Unknown(_) => None,
    }
}

/// What the settings page calls a key.
pub fn code_from_key(key: Key) -> (r: Option<&'static str>)
    ensures
        crate::text::opt_str(r) == code_of(key),
{
    match key {
        Key::Space => Some("Space"),
        Key::Tab => Some("Tab"),
        Key::Escape => Some("Escape"),
        Key::Return => Some("Enter"),
        Key::Backspace => Some("Backspace"),
        Key::KeyA => Some("KeyA"),
        Key::KeyB => Some("KeyB"),
        Key::KeyC => Some("KeyC"),
        Key::KeyD => Some("KeyD"),
        Key::KeyE => Some("KeyE"),
        Key::KeyF => Some("KeyF"),
        Key::KeyG => Some("KeyG"),
        Key::KeyH => Some("KeyH"),
        Key::KeyI => Some("KeyI"),
        Key::KeyJ => Some("KeyJ"),
        Key::KeyK => Some("KeyK"),
        Key::KeyL => Some("KeyL"),
        Key::KeyM => Some("KeyM"),
        Key::KeyN => Some("KeyN"),
        Key::KeyO => Some("KeyO"),
        Key::KeyP => Some("KeyP"),
        Key::KeyQ => Some("KeyQ"),
        Key::KeyR => Some("KeyR"),
        Key::KeyS => Some("KeyS"),
        Key::KeyT => Some("KeyT"),
        Key::KeyU => Some("KeyU"),
        Key::KeyV => Some("KeyV"),
        Key::KeyW => Some("KeyW"),
        Key::KeyX => Some("KeyX"),
        Key::KeyY => Some("KeyY"),
        Key::KeyZ => Some("KeyZ"),
        Key::Num0 => Some("Digit0"),
        Key::Num1 => Some("Digit1"),
        Key::Num2 => Some("Digit2"),
        Key::Num3 => Some("Digit3"),
        Key::Num4 => Some("Digit4"),
        Key::Num5 => Some("Digit5"),
        Key::Num6 => Some("Digit6"),
        Key::Num7 => Some("Digit7"),
        Key::Num8 => Some("Digit8"),
        Key::Num9 => Some("Digit9"),
        Key::F1 => Some("F1"),
        Key::F2 => Some("F2"),
        Key::F3 => Some("F3"),
        Key::F4 => Some("F4"),
        Key::F5 => Some("F5"),
        Key::F6 => Some("F6"),
        Key::F7 => Some("F7"),
        Key::F8 => Some("F8"),
        Key::F9 => Some("F9"),
        Key::F10 => Some("F10"),
        Key::F11 => Some("F11"),
        Key::F12 => Some("F12"),
        Key::Dot => Some("Period"),
        Key::Comma => Some("Comma"),
        Key::SemiColon => Some("Semicolon"),
        Key::Quote => Some("Quote"),
        Key::LeftBracket => Some("BracketLeft"),
        Key::RightBracket => Some("BracketRight"),
        Key::BackSlash => Some("Backslash"),
        Key::Slash => Some("Slash"),
        Key::Minus => Some("Minus"),
        Key::Equal => Some("Equal"),
        Key::BackQuote => Some("Backquote"),
        Key::ControlLeft => Some("ControlLeft"),
        Key::ControlRight => Some("ControlRight"),
        Key::ShiftLeft => Some("ShiftLeft"),
        Key::ShiftRight => Some("ShiftRight"),
        Key::Alt => Some("AltLeft"),
        Key::AltGr => Some("AltRight"),
        Key::MetaLeft => Some("MetaLeft"),
        Key::MetaRight => Some("MetaRight"),
        Key::Unknown(_) => None,
    }
}

/// The key that the settings page calls so.
pub fn key_from_code(code: &str) -> (r: Option<Key>)
    ensures
        match r {
            Some(k) => code_of(k) == Some(code@),
            None => forall|k: Key| code_of(k) != Some(code@),
        },
{
    if same(code, "Space") {
        return Some(Key::Space);
    }
    if same(code, "Tab") {
        return Some(Key::Tab);
    }
    if same(code, "Escape") {
        return Some(Key::Escape);
    }
    if same(code, "Enter") {
        return Some(Key::Return);
    }
    if same(code, "Backspace") {
        return Some(Key::Backspace);
    }
    if same(code, "KeyA") {
        return Some(Key::KeyA);
    }
    if same(code, "KeyB") {
        return Some(Key::KeyB);
    }
    if same(code, "KeyC") {
        return Some(Key::KeyC);
    }
    if same(code, "KeyD") {
        return Some(Key::KeyD);
    }
    if same(code, "KeyE") {
        return Some(Key::KeyE);
    }
    if same(code, "KeyF") {
        return Some(Key::KeyF);
    }
    if same(code, "KeyG") {
        return Some(Key::KeyG);
    }
    if same(code, "KeyH") {
        return Some(Key::KeyH);
    }
    if same(code, "KeyI") {
        return Some(Key::KeyI);
    }
    if same(code, "KeyJ") {
        return Some(Key::KeyJ);
    }
    if same(code, "KeyK") {
        return Some(Key::KeyK);
    }
    if same(code, "KeyL") {
        return Some(Key::KeyL);
    }
    if same(code, "KeyM") {
        return Some(Key::KeyM);
    }
    if same(code, "KeyN") {
        return Some(Key::KeyN);
    }
    if same(code, "KeyO") {
        return Some(Key::KeyO);
    }
    if same(code, "KeyP") {
        return Some(Key::KeyP);
    }
    if same(code, "KeyQ") {
        return Some(Key::KeyQ);
    }
    if same(code, "KeyR") {
        return Some(Key::KeyR);
    }
    if same(code, "KeyS") {
        return Some(Key::KeyS);
    }
    if same(code, "KeyT") {
        return Some(Key::KeyT);
    }
    if same(code, "KeyU") {
        return Some(Key::KeyU);
    }
    if same(code, "KeyV") {
        return Some(Key::KeyV);
    }
    if same(code, "KeyW") {
        return Some(Key::KeyW);
    }
    if same(code, "KeyX") {
        return Some(Key::KeyX);
    }
    if same(code, "KeyY") {
        return Some(Key::KeyY);
    }
    if same(code, "KeyZ") {
        return Some(Key::KeyZ);
    }
    if same(code, "Digit0") {
        return Some(Key::Num0);
    }
    if same(code, "Digit1") {
        return Some(Key::Num1);
    }
    if same(code, "Digit2") {
        return Some(Key::Num2);
    }
    if same(code, "Digit3") {
        return Some(Key::Num3);
    }
    if same(code, "Digit4") {
        return Some(Key::Num4);
    }
    if same(code, "Digit5") {
        return Some(Key::Num5);
    }
    if same(code, "Digit6") {
        return Some(Key::Num6);
    }
    if same(code, "Digit7") {
        return Some(Key::Num7);
    }
    if same(code, "Digit8") {
        return Some(Key::Num8);
    }
    if same(code, "Digit9") {
        return Some(Key::Num9);
    }
    if same(code, "F1") {
        return Some(Key::F1);
    }
    if same(code, "F2") {
        return Some(Key::F2);
    }
    if same(code, "F3") {
        return Some(Key::F3);
    }
    if same(code, "F4") {
        return Some(Key::F4);
    }
    if same(code, "F5") {
        return Some(Key::F5);
    }
    if same(code, "F6") {
        return Some(Key::F6);
    }
    if same(code, "F7") {
        return Some(Key::F7);
    }
    if same(code, "F8") {
        return Some(Key::F8);
    }
    if same(code, "F9") {
        return Some(Key::F9);
    }
    if same(code, "F10") {
        return Some(Key::F10);
    }
    if same(code, "F11") {
        return Some(Key::F11);
    }
    if same(code, "F12") {
        return Some(Key::F12);
    }
    if same(code, "Period") {
        return Some(Key::Dot);
    }
    if same(code, "Comma") {
        return Some(Key::Comma);
    }
    if same(code, "Semicolon") {
        return Some(Key::SemiColon);
    }
    if same(code, "Quote") {
        return Some(Key::Quote);
    }
    if same(code, "BracketLeft") {
        return Some(Key::LeftBracket);
    }
    if same(code, "BracketRight") {
        return Some(Key::RightBracket);
    }
    if same(code, "Backslash") {
        return Some(Key::BackSlash);
    }
    if same(code, "Slash") {
        return Some(Key::Slash);
    }
    if same(code, "Minus") {
        return Some(Key::Minus);
    }
    if same(code, "Equal") {
        return Some(Key::Equal);
    }
    if same(code, "Backquote") {
        return Some(Key::BackQuote);
    }
    if same(code, "ControlLeft") {
        return Some(Key::ControlLeft);
    }
    if same(code, "ControlRight") {
        return Some(Key::ControlRight);
    }
    if same(code, "ShiftLeft") {
        return Some(Key::ShiftLeft);
    }
    if same(code, "ShiftRight") {
        return Some(Key::ShiftRight);
    }
    if same(code, "AltLeft") {
        return Some(Key::Alt);
    }
    if same(code, "AltRight") {
        return Some(Key::AltGr);
    }
    if same(code, "MetaLeft") {
        return Some(Key::MetaLeft);
    }
    if same(code, "MetaRight") {
        return Some(Key::MetaRight);
    }
    None
}

/// A number by which the names of keys are told apart: their length, and three of their
/// characters.
spec fn mark(code: Seq<char>) -> int {
    code.len() * 0x1000000 + (code[0] as u32) * 0x10000 + (code[code.len() - 2] as u32) * 0x100 + (
    code.last() as u32)
}

/// The key whose name has that mark.
spec fn key_marked(m: int) -> Key {
    if m == 89351013 {
        Key::Space
    } else if m == 55861602 {
        Key::Tab
    } else if m == 105214053 {
        Key::Escape
    } else if m == 88434034 {
        Key::Return
    } else if m == 155345765 {
        Key::Backspace
    } else if m == 72055105 {
        Key::KeyA
    } else if m == 72055106 {
        Key::KeyB
    } else if m == 72055107 {
        Key::KeyC
    } else if m == 72055108 {
        Key::KeyD
    } else if m == 72055109 {
        Key::KeyE
    } else if m == 72055110 {
        Key::KeyF
    } else if m == 72055111 {
        Key::KeyG
    } else if m == 72055112 {
        Key::KeyH
    } else if m == 72055113 {
        Key::KeyI
    } else if m == 72055114 {
        Key::KeyJ
    } else if m == 72055115 {
        Key::KeyK
    } else if m == 72055116 {
        Key::KeyL
    } else if m == 72055117 {
        Key::KeyM
    } else if m == 72055118 {
        Key::KeyN
    } else if m == 72055119 {
        Key::KeyO
    } else if m == 72055120 {
        Key::KeyP
    } else if m == 72055121 {
        Key::KeyQ
    } else if m == 72055122 {
        Key::KeyR
    } else if m == 72055123 {
        Key::KeyS
    } else if m == 72055124 {
        Key::KeyT
    } else if m == 72055125 {
        Key::KeyU
    } else if m == 72055126 {
        Key::KeyV
    } else if m == 72055127 {
        Key::KeyW
    } else if m == 72055128 {
        Key::KeyX
    } else if m == 72055129 {
        Key::KeyY
    } else if m == 72055130 {
        Key::KeyZ
    } else if m == 105149488 {
        Key::Num0
    } else if m == 105149489 {
        Key::Num1
    } else if m == 105149490 {
        Key::Num2
    } else if m == 105149491 {
        Key::Num3
    } else if m == 105149492 {
        Key::Num4
    } else if m == 105149493 {
        Key::Num5
    } else if m == 105149494 {
        Key::Num6
    } else if m == 105149495 {
        Key::Num7
    } else if m == 105149496 {
        Key::Num8
    } else if m == 105149497 {
        Key::Num9
    } else if m == 38159921 {
        Key::F1
    } else if m == 38159922 {
        Key::F2
    } else if m == 38159923 {
        Key::F3
    } else if m == 38159924 {
        Key::F4
    } else if m == 38159925 {
        Key::F5
    } else if m == 38159926 {
        Key::F6
    } else if m == 38159927 {
        Key::F7
    } else if m == 38159928 {
        Key::F8
    } else if m == 38159929 {
        Key::F9
    } else if m == 54931760 {
        Key::F10
    } else if m == 54931761 {
        Key::F11
    } else if m == 54931762 {
        Key::F12
    } else if m == 105934692 {
        Key::Dot
    } else if m == 88304993 {
        Key::Comma
    } else if m == 156462958 {
        Key::SemiColon
    } else if m == 89224293 {
        Key::Quote
    } else if m == 188900980 {
        Key::LeftBracket
    } else if m == 205678708 {
        Key::RightBracket
    } else if m == 155349864 {
        Key::BackSlash
    } else if m == 89355112 {
        Key::Slash
    } else if m == 88962419 {
        Key::Minus
    } else if m == 88433004 {
        Key::Equal
    } else if m == 155350117 {
        Key::BackQuote
    } else if m == 188966516 {
        Key::ControlLeft
    } else if m == 205744244 {
        Key::ControlRight
    } else if m == 156460660 {
        Key::ShiftLeft
    } else if m == 173238388 {
        Key::ShiftRight
    } else if m == 121726580 {
        Key::Alt
    } else if m == 138504308 {
        Key::AltGr
    } else if m == 139290228 {
        Key::MetaLeft
    } else if m == 156067956 {
        Key::MetaRight
    } else {
        Key::Unknown(0)
    }
}

proof fn lemma_marks(key: Key)
    requires
        code_of(key) is Some,
    ensures
        key_marked(mark(code_of(key)->0)) == key,
{
    match key {
        Key::Space => {
            reveal_strlit("Space");
            assert(mark("Space"@) == 89351013);
        },
        Key::Tab => {
            reveal_strlit("Tab");
            assert(mark("Tab"@) == 55861602);
        },
        Key::Escape => {
            reveal_strlit("Escape");
            assert(mark("Escape"@) == 105214053);
        },
        Key::Return => {
            reveal_strlit("Enter");
            assert(mark("Enter"@) == 88434034);
        },
        Key::Backspace => {
            reveal_strlit("Backspace");
            assert(mark("Backspace"@) == 155345765);
        },
        Key::KeyA => {
            reveal_strlit("KeyA");
            assert(mark("KeyA"@) == 72055105);
        },
        Key::KeyB => {
            reveal_strlit("KeyB");
            assert(mark("KeyB"@) == 72055106);
        },
        Key::KeyC => {
            reveal_strlit("KeyC");
            assert(mark("KeyC"@) == 72055107);
        },
        Key::KeyD => {
            reveal_strlit("KeyD");
            assert(mark("KeyD"@) == 72055108);
        },
        Key::KeyE => {
            reveal_strlit("KeyE");
            assert(mark("KeyE"@) == 72055109);
        },
        Key::KeyF => {
            reveal_strlit("KeyF");
            assert(mark("KeyF"@) == 72055110);
        },
        Key::KeyG => {
            reveal_strlit("KeyG");
            assert(mark("KeyG"@) == 72055111);
        },
        Key::KeyH => {
            reveal_strlit("KeyH");
            assert(mark("KeyH"@) == 72055112);
        },
        Key::KeyI => {
            reveal_strlit("KeyI");
            assert(mark("KeyI"@) == 72055113);
        },
        Key::KeyJ => {
            reveal_strlit("KeyJ");
            assert(mark("KeyJ"@) == 72055114);
        },
        Key::KeyK => {
            reveal_strlit("KeyK");
            assert(mark("KeyK"@) == 72055115);
        },
        Key::KeyL => {
            reveal_strlit("KeyL");
            assert(mark("KeyL"@) == 72055116);
        },
        Key::KeyM => {
            reveal_strlit("KeyM");
            assert(mark("KeyM"@) == 72055117);
        },
        Key::KeyN => {
            reveal_strlit("KeyN");
            assert(mark("KeyN"@) == 72055118);
        },
        Key::KeyO => {
            reveal_strlit("KeyO");
            assert(mark("KeyO"@) == 72055119);
        },
        Key::KeyP => {
            reveal_strlit("KeyP");
            assert(mark("KeyP"@) == 72055120);
        },
        Key::KeyQ => {
            reveal_strlit("KeyQ");
            assert(mark("KeyQ"@) == 72055121);
        },
        Key::KeyR => {
            reveal_strlit("KeyR");
            assert(mark("KeyR"@) == 72055122);
        },
        Key::KeyS => {
            reveal_strlit("KeyS");
            assert(mark("KeyS"@) == 72055123);
        },
        Key::KeyT => {
            reveal_strlit("KeyT");
            assert(mark("KeyT"@) == 72055124);
        },
        Key::KeyU => {
            reveal_strlit("KeyU");
            assert(mark("KeyU"@) == 72055125);
        },
        Key::KeyV => {
            reveal_strlit("KeyV");
            assert(mark("KeyV"@) == 72055126);
        },
        Key::KeyW => {
            reveal_strlit("KeyW");
            assert(mark("KeyW"@) == 72055127);
        },
        Key::KeyX => {
            reveal_strlit("KeyX");
            assert(mark("KeyX"@) == 72055128);
        },
        Key::KeyY => {
            reveal_strlit("KeyY");
            assert(mark("KeyY"@) == 72055129);
        },
        Key::KeyZ => {
            reveal_strlit("KeyZ");
            assert(mark("KeyZ"@) == 72055130);
        },
        Key::Num0 => {
            reveal_strlit("Digit0");
            assert(mark("Digit0"@) == 105149488);
        },
        Key::Num1 => {
            reveal_strlit("Digit1");
            assert(mark("Digit1"@) == 105149489);
        },
        Key::Num2 => {
            reveal_strlit("Digit2");
            assert(mark("Digit2"@) == 105149490);
        },
        Key::Num3 => {
            reveal_strlit("Digit3");
            assert(mark("Digit3"@) == 105149491);
        },
        Key::Num4 => {
            reveal_strlit("Digit4");
            assert(mark("Digit4"@) == 105149492);
        },
        Key::Num5 => {
            reveal_strlit("Digit5");
            assert(mark("Digit5"@) == 105149493);
        },
        Key::Num6 => {
            reveal_strlit("Digit6");
            assert(mark("Digit6"@) == 105149494);
        },
        Key::Num7 => {
            reveal_strlit("Digit7");
            assert(mark("Digit7"@) == 105149495);
        },
        Key::Num8 => {
            reveal_strlit("Digit8");
            assert(mark("Digit8"@) == 105149496);
        },
        Key::Num9 => {
            reveal_strlit("Digit9");
            assert(mark("Digit9"@) == 105149497);
        },
        Key::F1 => {
            reveal_strlit("F1");
            assert(mark("F1"@) == 38159921);
        },
        Key::F2 => {
            reveal_strlit("F2");
            assert(mark("F2"@) == 38159922);
        },
        Key::F3 => {
            reveal_strlit("F3");
            assert(mark("F3"@) == 38159923);
        },
        Key::F4 => {
            reveal_strlit("F4");
            assert(mark("F4"@) == 38159924);
        },
        Key::F5 => {
            reveal_strlit("F5");
            assert(mark("F5"@) == 38159925);
        },
        Key::F6 => {
            reveal_strlit("F6");
            assert(mark("F6"@) == 38159926);
        },
        Key::F7 => {
            reveal_strlit("F7");
            assert(mark("F7"@) == 38159927);
        },
        Key::F8 => {
            reveal_strlit("F8");
            assert(mark("F8"@) == 38159928);
        },
        Key::F9 => {
            reveal_strlit("F9");
            assert(mark("F9"@) == 38159929);
        },
        Key::F10 => {
            reveal_strlit("F10");
            assert(mark("F10"@) == 54931760);
        },
        Key::F11 => {
            reveal_strlit("F11");
            assert(mark("F11"@) == 54931761);
        },
        Key::F12 => {
            reveal_strlit("F12");
            assert(mark("F12"@) == 54931762);
        },
        Key::Dot => {
            reveal_strlit("Period");
            assert(mark("Period"@) == 105934692);
        },
        Key::Comma => {
            reveal_strlit("Comma");
            assert(mark("Comma"@) == 88304993);
        },
        Key::SemiColon => {
            reveal_strlit("Semicolon");
            assert(mark("Semicolon"@) == 156462958);
        },
        Key::Quote => {
            reveal_strlit("Quote");
            assert(mark("Quote"@) == 89224293);
        },
        Key::LeftBracket => {
            reveal_strlit("BracketLeft");
            assert(mark("BracketLeft"@) == 188900980);
        },
        Key::RightBracket => {
            reveal_strlit("BracketRight");
            assert(mark("BracketRight"@) == 205678708);
        },
        Key::BackSlash => {
            reveal_strlit("Backslash");
            assert(mark("Backslash"@) == 155349864);
        },
        Key::Slash => {
            reveal_strlit("Slash");
            assert(mark("Slash"@) == 89355112);
        },
        Key::Minus => {
            reveal_strlit("Minus");
            assert(mark("Minus"@) == 88962419);
        },
        Key::Equal => {
            reveal_strlit("Equal");
            assert(mark("Equal"@) == 88433004);
        },
        Key::BackQuote => {
            reveal_strlit("Backquote");
            assert(mark("Backquote"@) == 155350117);
        },
        Key::ControlLeft => {
            reveal_strlit("ControlLeft");
            assert(mark("ControlLeft"@) == 188966516);
        },
        Key::ControlRight => {
            reveal_strlit("ControlRight");
            assert(mark("ControlRight"@) == 205744244);
        },
        Key::ShiftLeft => {
            reveal_strlit("ShiftLeft");
            assert(mark("ShiftLeft"@) == 156460660);
        },
        Key::ShiftRight => {
            reveal_strlit("ShiftRight");
            assert(mark("ShiftRight"@) == 173238388);
        },
        Key::Alt => {
            reveal_strlit("AltLeft");
            assert(mark("AltLeft"@) == 121726580);
        },
        Key::AltGr => {
            reveal_strlit("AltRight");
            assert(mark("AltRight"@) == 138504308);
        },
        Key::MetaLeft => {
            reveal_strlit("MetaLeft");
            assert(mark("MetaLeft"@) == 139290228);
        },
        Key::MetaRight => {
            reveal_strlit("MetaRight");
            assert(mark("MetaRight"@) == 156067956);
        },
        Key::Unknown(_) => {},
    }
}

/// No two keys have the same name.
pub proof fn law_codes_are_unique(a: Key, b: Key)
    requires
        code_of(a) is Some,
        code_of(a) == code_of(b),
    ensures
        a == b,
{
    lemma_marks(a);
    lemma_marks(b);
}

/// Whether a key is held together with others.
pub open spec fn is_modifier_key(key: Key) -> bool {
    match key {
        Key::ControlLeft | Key::ControlRight | Key::ShiftLeft | Key::ShiftRight | Key::Alt
        | Key::AltGr | Key::MetaLeft | Key::MetaRight => true,
        _ => false,
    }
}

/// Whether a key is held together with others.
pub fn is_modifier(key: Key) -> (r: bool)
    ensures
        r == is_modifier_key(key),
{
    match key {
        Key::ControlLeft | Key::ControlRight | Key::ShiftLeft | Key::ShiftRight | Key::Alt
        | Key::AltGr | Key::MetaLeft | Key::MetaRight => true,
        _ => false,
    }
}

// ----- bindings -----

/// A key, as bindings hold it.
#[derive(Clone, Copy, PartialEq, Eq, Structural, Debug)]
pub struct SerKey(pub Key);

/// The kinds of modifier.
#[derive(Clone, Copy, PartialEq, Eq, Structural, Debug)]
pub enum ModifierKind {
    Control,
    Shift,
    Alt,
    Meta,
}

/// Which of the two keys of a modifier is meant.
#[derive(Clone, Copy, PartialEq, Eq, Structural, Debug)]
pub enum ModifierSide {
    Left,
    Right,
    Either,
}

/// A primary key and the modifiers that are held with it.
#[derive(Clone, PartialEq, Eq, Debug)]
pub struct Binding {
    pub primary: SerKey,
    pub modifiers: Vec<(ModifierKind, ModifierSide)>,
}

/// A modifier as the settings page writes it.
#[derive(Clone, PartialEq, Eq, Debug)]
pub struct JsModifier {
    /// `Control`, `Shift`, `Alt` or `Meta`.
    pub kind: String,
    /// `Left`, `Right` or `Either`.
    pub side: String,
}

/// A binding as the settings page writes it.
#[derive(Clone, PartialEq, Eq, Debug)]
pub struct JsBinding {
    /// The name of the primary key.
    pub primary: String,
    pub modifiers: Vec<JsModifier>,
}

/// Why a binding cannot be read.
#[derive(Clone, PartialEq, Eq, Debug)]
pub enum BindingConversionError {
    UnknownKey(String),
    UnknownModifierKind(String),
    UnknownModifierSide(String),
}

impl BindingConversionError {
    /// The error in words.
    pub open spec fn text(self) -> Seq<char> {
        match self {
            BindingConversionError::UnknownKey(s) => "unknown key code: "@ + s@,
            BindingConversionError::UnknownModifierKind(s) => "unknown modifier kind: "@ + s@,
            BindingConversionError::UnknownModifierSide(s) => "unknown modifier side: "@ + s@,
        }
    }

    /// The error in words.
    pub fn message(&self) -> (r: String)
        ensures
            r@ == self.text(),
    {
        match self {
            BindingConversionError::UnknownKey(s) => glue("unknown key code: ", s.as_str()),
            BindingConversionError::UnknownModifierKind(s) => glue(
                "unknown modifier kind: ",
                s.as_str(),
            ),
            BindingConversionError::UnknownModifierSide(s) => glue(
                "unknown modifier side: ",
                s.as_str(),
            ),
        }
    }
}

/// The name of a kind of modifier.
pub open spec fn kind_name(kind: ModifierKind) -> Seq<char> {
    match kind {
        ModifierKind::Control => "Control"@,
        ModifierKind::Shift => "Shift"@,
        ModifierKind::Alt => "Alt"@,
        ModifierKind::Meta => "Meta"@,
    }
}

/// The name of a side.
pub open spec fn side_name(side: ModifierSide) -> Seq<char> {
    match side {
        ModifierSide::Left => "Left"@,
        ModifierSide::Right => "Right"@,
        ModifierSide::Either => "Either"@,
    }
}

/// Whether a text is the name of some kind of modifier.
pub open spec fn names_kind(s: Seq<char>) -> bool {
    exists|k: ModifierKind| #[trigger] kind_name(k) == s
}

/// Whether a text is the name of some side.
pub open spec fn names_side(s: Seq<char>) -> bool {
    exists|k: ModifierSide| #[trigger] side_name(k) == s
}

fn parse_kind(s: &str) -> (r: Option<ModifierKind>)
    ensures
        match r {
            Some(k) => kind_name(k) == s@,
            None => !names_kind(s@),
        },
{
    if same(s, "Control") {
        Some(ModifierKind::Control)
    } else if same(s, "Shift") {
        Some(ModifierKind::Shift)
    } else if same(s, "Alt") {
        Some(ModifierKind::Alt)
    } else if same(s, "Meta") {
        Some(ModifierKind::Meta)
    } else {
        None
    }
}

fn parse_side(s: &str) -> (r: Option<ModifierSide>)
    ensures
        match r {
            Some(k) => side_name(k) == s@,
            None => !names_side(s@),
        },
{
    if same(s, "Left") {
        Some(ModifierSide::Left)
    } else if same(s, "Right") {
        Some(ModifierSide::Right)
    } else if same(s, "Either") {
        Some(ModifierSide::Either)
    } else {
        None
    }
}

/// Whether a modifier is written as `m` says.
pub open spec fn is_modifier_text(m: JsModifier, k: (ModifierKind, ModifierSide)) -> bool {
    m.kind@ == kind_name(k.0) && m.side@ == side_name(k.1)
}

/// Whether a binding is written as `js` says.
pub open spec fn is_binding_text(js: JsBinding, b: Binding) -> bool {
    &&& code_of(b.primary.0) == Some(js.primary@)
    &&& js.modifiers@.len() == b.modifiers@.len()
    &&& forall|i: int|
        0 <= i < b.modifiers@.len() ==> is_modifier_text(
            #[trigger] js.modifiers@[i],
            b.modifiers@[i],
        )
}

/// Whether the first `n` modifiers can be read.
pub open spec fn readable_upto(m: Seq<JsModifier>, n: int) -> bool {
    forall|i: int|
        0 <= i < n ==> names_kind((#[trigger] m[i]).kind@) && names_side(m[i].side@)
}

impl Binding {
    /// A key on its own.
    pub fn single(key: Key) -> (r: Binding)
        ensures
            r.primary.0 == key,
            r.modifiers@.len() == 0,
    {
        Binding { primary: SerKey(key), modifiers: Vec::new() }
    }

    /// Reads a binding as the settings page writes it. The first thing that cannot be read, from
    /// the key on, is reported.
    pub fn try_from(js: JsBinding) -> (r: Result<Binding, BindingConversionError>)
        ensures
            match r {
                Ok(b) => is_binding_text(js, b),
                Err(BindingConversionError::UnknownKey(s)) => s@ == js.primary@ && forall|k: Key|
                    code_of(k) != Some(js.primary@),
                Err(BindingConversionError::UnknownModifierKind(s)) => {
                    &&& exists|k: Key| code_of(k) == Some(js.primary@)
                    &&& exists|i: int|
                        0 <= i < js.modifiers@.len() && readable_upto(js.modifiers@, i) && s@
                            == #[trigger] js.modifiers@[i].kind@ && !names_kind(s@)
                },
                Err(BindingConversionError::UnknownModifierSide(s)) => {
                    &&& exists|k: Key| code_of(k) == Some(js.primary@)
                    &&& exists|i: int|
                        0 <= i < js.modifiers@.len() && readable_upto(js.modifiers@, i)
                            && names_kind(js.modifiers@[i].kind@) && s@
                            == #[trigger] js.modifiers@[i].side@ && !names_side(s@)
                },
            },
    {
        let primary = match key_from_code(js.primary.as_str()) {
            Some(k) => k,
            None => {
                return Err(BindingConversionError::UnknownKey(js.primary));
            },
        };
        assert(code_of(primary) == Some(js.primary@));
        let mut modifiers: Vec<(ModifierKind, ModifierSide)> = Vec::new();
        let mut i: usize = 0;
        while i < js.modifiers.len()
            invariant
                i <= js.modifiers@.len(),
                modifiers@.len() == i,
                code_of(primary) == Some(js.primary@),
                forall|k: int|
                    0 <= k < i ==> is_modifier_text(#[trigger] js.modifiers@[k], modifiers@[k]),
                readable_upto(js.modifiers@, i as int),
            decreases js.modifiers@.len() - i,
        {
            let m = &js.modifiers[i];
            let kind = match parse_kind(m.kind.as_str()) {
                Some(k) => k,
                None => {
                    assert(js.modifiers@[i as int].kind@ == m.kind@);
                    return Err(BindingConversionError::UnknownModifierKind(m.kind.clone()));
                },
            };
            assert(names_kind(m.kind@));
            let side = match parse_side(m.side.as_str()) {
                Some(s) => s,
                None => {
                    assert(js.modifiers@[i as int].side@ == m.side@);
                    return Err(BindingConversionError::UnknownModifierSide(m.side.clone()));
                },
            };
            assert(names_side(m.side@));
            modifiers.push((kind, side));
            i = i + 1;
        }
        Ok(Binding { primary: SerKey(primary), modifiers })
    }
}

impl JsBinding {
    /// Writes a binding for the settings page. A key without a name is written `Unknown`.
    pub fn from(b: Binding) -> (r: JsBinding)
        ensures
            code_of(b.primary.0) is Some ==> is_binding_text(r, b),
            code_of(b.primary.0) is None ==> r.primary@ == "Unknown"@,
            r.modifiers@.len() == b.modifiers@.len(),
            forall|i: int|
                0 <= i < b.modifiers@.len() ==> is_modifier_text(
                    #[trigger] r.modifiers@[i],
                    b.modifiers@[i],
                ),
    {
        let primary = match code_from_key(b.primary.0) {
            Some(c) => c.to_owned(),
            None => "Unknown".to_owned(),
        };
        let mut modifiers: Vec<JsModifier> = Vec::new();
        let mut i: usize = 0;
        while i < b.modifiers.len()
            invariant
                i <= b.modifiers@.len(),
                modifiers@.len() == i,
                forall|k: int|
                    0 <= k < i ==> is_modifier_text(#[trigger] modifiers@[k], b.modifiers@[k]),
            decreases b.modifiers@.len() - i,
        {
            let kind = match b.modifiers[i].0 {
                ModifierKind::Control => "Control",
                ModifierKind::Shift => "Shift",
                ModifierKind::Alt => "Alt",
                ModifierKind::Meta => "Meta",
            };
            let side = match b.modifiers[i].1 {
                ModifierSide::Left => "Left",
                ModifierSide::Right => "Right",
                ModifierSide::Either => "Either",
            };
            modifiers.push(JsModifier { kind: kind.to_owned(), side: side.to_owned() });
            i = i + 1;
        }
        JsBinding { primary, modifiers }
    }
}

proof fn lemma_names_are_unique(a: (ModifierKind, ModifierSide), b: (ModifierKind, ModifierSide))
    requires
        kind_name(a.0) == kind_name(b.0),
        side_name(a.1) == side_name(b.1),
    ensures
        a == b,
{
    reveal_strlit("Control");
    reveal_strlit("Shift");
    reveal_strlit("Alt");
    reveal_strlit("Meta");
    reveal_strlit("Left");
    reveal_strlit("Right");
    reveal_strlit("Either");
    let k = kind_name(a.0);
    let s = side_name(a.1);
    assert("Control"@.len() == 7 && "Shift"@.len() == 5 && "Alt"@.len() == 3 && "Meta"@.len() == 4);
    assert("Left"@.len() == 4 && "Right"@.len() == 5 && "Either"@.len() == 6);
}

/// A binding that is written and read again is the same: whatever reads as one binding reads as no
/// other.
pub proof fn law_binding_round_trips(js: JsBinding, a: Binding, b: Binding)
    requires
        is_binding_text(js, a),
        is_binding_text(js, b),
    ensures
        a.primary == b.primary,
        a.modifiers@ == b.modifiers@,
{
    law_codes_are_unique(a.primary.0, b.primary.0);
    assert forall|i: int| 0 <= i < a.modifiers@.len() implies a.modifiers@[i] == b.modifiers@[i] by {
        assert(is_modifier_text(js.modifiers@[i], a.modifiers@[i]));
        assert(is_modifier_text(js.modifiers@[i], b.modifiers@[i]));
        lemma_names_are_unique(a.modifiers@[i], b.modifiers@[i]);
    }
}

/// The letter on a key, where it has one.
pub open spec fn letter_on(key: Key) -> Option<char> {
    match key {
        Key::KeyA => Some('A'),
        Key::KeyB => Some('B'),
        Key::KeyC => Some('C'),
        Key::KeyD => Some('D'),
        Key::KeyE => Some('E'),
        Key::KeyF => Some('F'),
        Key::KeyG => Some('G'),
        Key::KeyH => Some('H'),
        Key::KeyI => Some('I'),
        Key::KeyJ => Some('J'),
        Key::KeyK => Some('K'),
        Key::KeyL => Some('L'),
        Key::KeyM => Some('M'),
        Key::KeyN => Some('N'),
        Key::KeyO => Some('O'),
        Key::KeyP => Some('P'),
        Key::KeyQ => Some('Q'),
        Key::KeyR => Some('R'),
        Key::KeyS => Some('S'),
        Key::KeyT => Some('T'),
        Key::KeyU => Some('U'),
        Key::KeyV => Some('V'),
        Key::KeyW => Some('W'),
        Key::KeyX => Some('X'),
        Key::KeyY => Some('Y'),
        Key::KeyZ => Some('Z'),
        _ => None,
    }
}

/// The digit on a key of the row above the letters, where it has one.
pub open spec fn digit_on(key: Key) -> Option<char> {
    match key {
        Key::Num0 => Some('0'),
        Key::Num1 => Some('1'),
        Key::Num2 => Some('2'),
        Key::Num3 => Some('3'),
        Key::Num4 => Some('4'),
        Key::Num5 => Some('5'),
        Key::Num6 => Some('6'),
        Key::Num7 => Some('7'),
        Key::Num8 => Some('8'),
        Key::Num9 => Some('9'),
        _ => None,
    }
}

/// The number of a function key, in digits.
pub open spec fn function_number(key: Key) -> Option<Seq<char>> {
    match key {
        Key::F1 => Some(seq!['1']),
        Key::F2 => Some(seq!['2']),
        Key::F3 => Some(seq!['3']),
        Key::F4 => Some(seq!['4']),
        Key::F5 => Some(seq!['5']),
        Key::F6 => Some(seq!['6']),
        Key::F7 => Some(seq!['7']),
        Key::F8 => Some(seq!['8']),
        Key::F9 => Some(seq!['9']),
        Key::F10 => Some(seq!['1', '0']),
        Key::F11 => Some(seq!['1', '1']),
        Key::F12 => Some(seq!['1', '2']),
        _ => None,
    }
}

/// The name of a key that is neither a letter nor a digit, a function key or a modifier, character
/// by character.
pub open spec fn word_on(key: Key) -> Option<Seq<char>> {
    match key {
        Key::Space => Some(
            seq!['S', 'p', 'a', 'c', 'e'],
        ),
        Key::Tab => Some(
            seq!['T', 'a', 'b'],
        ),
        Key::Escape => Some(
            seq!['E', 's', 'c', 'a', 'p', 'e'],
        ),
        Key::Return => Some(
            seq!['E', 'n', 't', 'e', 'r'],
        ),
        Key::Backspace => Some(
            seq!['B', 'a', 'c', 'k', 's', 'p', 'a', 'c', 'e'],
        ),
        Key::Dot => Some(
            seq!['P', 'e', 'r', 'i', 'o', 'd'],
        ),
        Key::Comma => Some(
            seq!['C', 'o', 'm', 'm', 'a'],
        ),
        Key::SemiColon => Some(
            seq!['S', 'e', 'm', 'i', 'c', 'o', 'l', 'o', 'n'],
        ),
        Key::Quote => Some(
            seq!['Q', 'u', 'o', 't', 'e'],
        ),
        Key::LeftBracket => Some(
            seq!['B', 'r', 'a', 'c', 'k', 'e', 't', 'L', 'e', 'f', 't'],
        ),
        Key::RightBracket => Some(
            seq!['B', 'r', 'a', 'c', 'k', 'e', 't', 'R', 'i', 'g', 'h', 't'],
        ),
        Key::BackSlash => Some(
            seq!['B', 'a', 'c', 'k', 's', 'l', 'a', 's', 'h'],
        ),
        Key::Slash => Some(
            seq!['S', 'l', 'a', 's', 'h'],
        ),
        Key::Minus => Some(
            seq!['M', 'i', 'n', 'u', 's'],
        ),
        Key::Equal => Some(
            seq!['E', 'q', 'u', 'a', 'l'],
        ),
        Key::BackQuote => Some(
            seq!['B', 'a', 'c', 'k', 'q', 'u', 'o', 't', 'e'],
        ),
        _ => None,
    }
}

/// The kind and the side of a modifier key.
pub open spec fn modifier_on(key: Key) -> Option<(ModifierKind, ModifierSide)> {
    match key {
        Key::ControlLeft => Some((ModifierKind::Control, ModifierSide::Left)),
        Key::ControlRight => Some((ModifierKind::Control, ModifierSide::Right)),
        Key::ShiftLeft => Some((ModifierKind::Shift, ModifierSide::Left)),
        Key::ShiftRight => Some((ModifierKind::Shift, ModifierSide::Right)),
        Key::Alt => Some((ModifierKind::Alt, ModifierSide::Left)),
        Key::AltGr => Some((ModifierKind::Alt, ModifierSide::Right)),
        Key::MetaLeft => Some((ModifierKind::Meta, ModifierSide::Left)),
        Key::MetaRight => Some((ModifierKind::Meta, ModifierSide::Right)),
        _ => None,
    }
}

/// A key is named after what stands on it: a letter after `Key`, a digit after `Digit`, the number
/// of a function key after `F`, and a modifier by its kind and its side. Every key has a name but
/// the unknown ones.
pub proof fn law_keys_are_named_after_themselves(key: Key)
    ensures
        letter_on(key) matches Some(c) ==> code_of(key) == Some(seq!['K', 'e', 'y', c]),
        digit_on(key) matches Some(c) ==> code_of(key) == Some(seq!['D', 'i', 'g', 'i', 't', c]),
        function_number(key) matches Some(n) ==> code_of(key) == Some(seq!['F'] + n),
        word_on(key) matches Some(w) ==> code_of(key) == Some(w),
        modifier_on(key) matches Some(m) ==> code_of(key) == Some(
            kind_name(m.0) + side_name(m.1),
        ),
        code_of(key) is None <==> key is Unknown,
        is_modifier_key(key) <==> modifier_on(key) is Some,
{
    match key {
        Key::Space => {
            reveal_strlit("Space");
            assert("Space"@ =~= seq!['S', 'p', 'a', 'c', 'e']);
        },
        Key::Tab => {
            reveal_strlit("Tab");
            assert("Tab"@ =~= seq!['T', 'a', 'b']);
        },
        Key::Escape => {
            reveal_strlit("Escape");
            assert("Escape"@ =~= seq!['E', 's', 'c', 'a', 'p', 'e']);
        },
        Key::Return => {
            reveal_strlit("Enter");
            assert("Enter"@ =~= seq!['E', 'n', 't', 'e', 'r']);
        },
        Key::Backspace => {
            reveal_strlit("Backspace");
            assert("Backspace"@ =~= seq!['B', 'a', 'c', 'k', 's', 'p', 'a', 'c', 'e']);
        },
        Key::KeyA => {
            reveal_strlit("KeyA");
            assert("KeyA"@ =~= seq!['K', 'e', 'y', 'A']);
        },
        Key::KeyB => {
            reveal_strlit("KeyB");
            assert("KeyB"@ =~= seq!['K', 'e', 'y', 'B']);
        },
        Key::KeyC => {
            reveal_strlit("KeyC");
            assert("KeyC"@ =~= seq!['K', 'e', 'y', 'C']);
        },
        Key::KeyD => {
            reveal_strlit("KeyD");
            assert("KeyD"@ =~= seq!['K', 'e', 'y', 'D']);
        },
        Key::KeyE => {
            reveal_strlit("KeyE");
            assert("KeyE"@ =~= seq!['K', 'e', 'y', 'E']);
        },
        Key::KeyF => {
            reveal_strlit("KeyF");
            assert("KeyF"@ =~= seq!['K', 'e', 'y', 'F']);
        },
        Key::KeyG => {
            reveal_strlit("KeyG");
            assert("KeyG"@ =~= seq!['K', 'e', 'y', 'G']);
        },
        Key::KeyH => {
            reveal_strlit("KeyH");
            assert("KeyH"@ =~= seq!['K', 'e', 'y', 'H']);
        },
        Key::KeyI => {
            reveal_strlit("KeyI");
            assert("KeyI"@ =~= seq!['K', 'e', 'y', 'I']);
        },
        Key::KeyJ => {
            reveal_strlit("KeyJ");
            assert("KeyJ"@ =~= seq!['K', 'e', 'y', 'J']);
        },
        Key::KeyK => {
            reveal_strlit("KeyK");
            assert("KeyK"@ =~= seq!['K', 'e', 'y', 'K']);
        },
        Key::KeyL => {
            reveal_strlit("KeyL");
            assert("KeyL"@ =~= seq!['K', 'e', 'y', 'L']);
        },
        Key::KeyM => {
            reveal_strlit("KeyM");
            assert("KeyM"@ =~= seq!['K', 'e', 'y', 'M']);
        },
        Key::KeyN => {
            reveal_strlit("KeyN");
            assert("KeyN"@ =~= seq!['K', 'e', 'y', 'N']);
        },
        Key::KeyO => {
            reveal_strlit("KeyO");
            assert("KeyO"@ =~= seq!['K', 'e', 'y', 'O']);
        },
        Key::KeyP => {
            reveal_strlit("KeyP");
            assert("KeyP"@ =~= seq!['K', 'e', 'y', 'P']);
        },
        Key::KeyQ => {
            reveal_strlit("KeyQ");
            assert("KeyQ"@ =~= seq!['K', 'e', 'y', 'Q']);
        },
        Key::KeyR => {
            reveal_strlit("KeyR");
            assert("KeyR"@ =~= seq!['K', 'e', 'y', 'R']);
        },
        Key::KeyS => {
            reveal_strlit("KeyS");
            assert("KeyS"@ =~= seq!['K', 'e', 'y', 'S']);
        },
        Key::KeyT => {
            reveal_strlit("KeyT");
            assert("KeyT"@ =~= seq!['K', 'e', 'y', 'T']);
        },
        Key::KeyU => {
            reveal_strlit("KeyU");
            assert("KeyU"@ =~= seq!['K', 'e', 'y', 'U']);
        },
        Key::KeyV => {
            reveal_strlit("KeyV");
            assert("KeyV"@ =~= seq!['K', 'e', 'y', 'V']);
        },
        Key::KeyW => {
            reveal_strlit("KeyW");
            assert("KeyW"@ =~= seq!['K', 'e', 'y', 'W']);
        },
        Key::KeyX => {
            reveal_strlit("KeyX");
            assert("KeyX"@ =~= seq!['K', 'e', 'y', 'X']);
        },
        Key::KeyY => {
            reveal_strlit("KeyY");
            assert("KeyY"@ =~= seq!['K', 'e', 'y', 'Y']);
        },
        Key::KeyZ => {
            reveal_strlit("KeyZ");
            assert("KeyZ"@ =~= seq!['K', 'e', 'y', 'Z']);
        },
        Key::Num0 => {
            reveal_strlit("Digit0");
            assert("Digit0"@ =~= seq!['D', 'i', 'g', 'i', 't', '0']);
        },
        Key::Num1 => {
            reveal_strlit("Digit1");
            assert("Digit1"@ =~= seq!['D', 'i', 'g', 'i', 't', '1']);
        },
        Key::Num2 => {
            reveal_strlit("Digit2");
            assert("Digit2"@ =~= seq!['D', 'i', 'g', 'i', 't', '2']);
        },
        Key::Num3 => {
            reveal_strlit("Digit3");
            assert("Digit3"@ =~= seq!['D', 'i', 'g', 'i', 't', '3']);
        },
        Key::Num4 => {
            reveal_strlit("Digit4");
            assert("Digit4"@ =~= seq!['D', 'i', 'g', 'i', 't', '4']);
        },
        Key::Num5 => {
            reveal_strlit("Digit5");
            assert("Digit5"@ =~= seq!['D', 'i', 'g', 'i', 't', '5']);
        },
        Key::Num6 => {
            reveal_strlit("Digit6");
            assert("Digit6"@ =~= seq!['D', 'i', 'g', 'i', 't', '6']);
        },
        Key::Num7 => {
            reveal_strlit("Digit7");
            assert("Digit7"@ =~= seq!['D', 'i', 'g', 'i', 't', '7']);
        },
        Key::Num8 => {
            reveal_strlit("Digit8");
            assert("Digit8"@ =~= seq!['D', 'i', 'g', 'i', 't', '8']);
        },
        Key::Num9 => {
            reveal_strlit("Digit9");
            assert("Digit9"@ =~= seq!['D', 'i', 'g', 'i', 't', '9']);
        },
        Key::F1 => {
            reveal_strlit("F1");
            assert("F1"@ =~= seq!['F'] + seq!['1']);
        },
        Key::F2 => {
            reveal_strlit("F2");
            assert("F2"@ =~= seq!['F'] + seq!['2']);
        },
        Key::F3 => {
            reveal_strlit("F3");
            assert("F3"@ =~= seq!['F'] + seq!['3']);
        },
        Key::F4 => {
            reveal_strlit("F4");
            assert("F4"@ =~= seq!['F'] + seq!['4']);
        },
        Key::F5 => {
            reveal_strlit("F5");
            assert("F5"@ =~= seq!['F'] + seq!['5']);
        },
        Key::F6 => {
            reveal_strlit("F6");
            assert("F6"@ =~= seq!['F'] + seq!['6']);
        },
        Key::F7 => {
            reveal_strlit("F7");
            assert("F7"@ =~= seq!['F'] + seq!['7']);
        },
        Key::F8 => {
            reveal_strlit("F8");
            assert("F8"@ =~= seq!['F'] + seq!['8']);
        },
        Key::F9 => {
            reveal_strlit("F9");
            assert("F9"@ =~= seq!['F'] + seq!['9']);
        },
        Key::F10 => {
            reveal_strlit("F10");
            assert("F10"@ =~= seq!['F'] + seq!['1', '0']);
        },
        Key::F11 => {
            reveal_strlit("F11");
            assert("F11"@ =~= seq!['F'] + seq!['1', '1']);
        },
        Key::F12 => {
            reveal_strlit("F12");
            assert("F12"@ =~= seq!['F'] + seq!['1', '2']);
        },
        Key::Dot => {
            reveal_strlit("Period");
            assert("Period"@ =~= seq!['P', 'e', 'r', 'i', 'o', 'd']);
        },
        Key::Comma => {
            reveal_strlit("Comma");
            assert("Comma"@ =~= seq!['C', 'o', 'm', 'm', 'a']);
        },
        Key::SemiColon => {
            reveal_strlit("Semicolon");
            assert("Semicolon"@ =~= seq!['S', 'e', 'm', 'i', 'c', 'o', 'l', 'o', 'n']);
        },
        Key::Quote => {
            reveal_strlit("Quote");
            assert("Quote"@ =~= seq!['Q', 'u', 'o', 't', 'e']);
        },
        Key::LeftBracket => {
            reveal_strlit("BracketLeft");
            assert("BracketLeft"@ =~= seq!['B', 'r', 'a', 'c', 'k', 'e', 't', 'L', 'e', 'f', 't']);
        },
        Key::RightBracket => {
            reveal_strlit("BracketRight");
            assert("BracketRight"@ =~= seq![
                'B', 'r', 'a', 'c', 'k', 'e', 't', 'R', 'i', 'g', 'h', 't',
            ]);
        },
        Key::BackSlash => {
            reveal_strlit("Backslash");
            assert("Backslash"@ =~= seq!['B', 'a', 'c', 'k', 's', 'l', 'a', 's', 'h']);
        },
        Key::Slash => {
            reveal_strlit("Slash");
            assert("Slash"@ =~= seq!['S', 'l', 'a', 's', 'h']);
        },
        Key::Minus => {
            reveal_strlit("Minus");
            assert("Minus"@ =~= seq!['M', 'i', 'n', 'u', 's']);
        },
        Key::Equal => {
            reveal_strlit("Equal");
            assert("Equal"@ =~= seq!['E', 'q', 'u', 'a', 'l']);
        },
        Key::BackQuote => {
            reveal_strlit("Backquote");
            assert("Backquote"@ =~= seq!['B', 'a', 'c', 'k', 'q', 'u', 'o', 't', 'e']);
        },
        Key::ControlLeft => {
            reveal_strlit("ControlLeft");
            reveal_strlit("Control");
            reveal_strlit("Left");
            assert("ControlLeft"@ =~= "Control"@ + "Left"@);
        },
        Key::ControlRight => {
            reveal_strlit("ControlRight");
            reveal_strlit("Control");
            reveal_strlit("Right");
            assert("ControlRight"@ =~= "Control"@ + "Right"@);
        },
        Key::ShiftLeft => {
            reveal_strlit("ShiftLeft");
            reveal_strlit("Shift");
            reveal_strlit("Left");
            assert("ShiftLeft"@ =~= "Shift"@ + "Left"@);
        },
        Key::ShiftRight => {
            reveal_strlit("ShiftRight");
            reveal_strlit("Shift");
            reveal_strlit("Right");
            assert("ShiftRight"@ =~= "Shift"@ + "Right"@);
        },
        Key::Alt => {
            reveal_strlit("AltLeft");
            reveal_strlit("Alt");
            reveal_strlit("Left");
            assert("AltLeft"@ =~= "Alt"@ + "Left"@);
        },
        Key::AltGr => {
            reveal_strlit("AltRight");
            reveal_strlit("Alt");
            reveal_strlit("Right");
            assert("AltRight"@ =~= "Alt"@ + "Right"@);
        },
        Key::MetaLeft => {
            reveal_strlit("MetaLeft");
            reveal_strlit("Meta");
            reveal_strlit("Left");
            assert("MetaLeft"@ =~= "Meta"@ + "Left"@);
        },
        Key::MetaRight => {
            reveal_strlit("MetaRight");
            reveal_strlit("Meta");
            reveal_strlit("Right");
            assert("MetaRight"@ =~= "Meta"@ + "Right"@);
        },
        Key::Unknown(_) => {},
    }
}

/// The kinds and the sides of modifiers are written as they are called.
pub proof fn law_modifiers_are_named_after_themselves()
    ensures
        kind_name(ModifierKind::Control) == seq!['C', 'o', 'n', 't', 'r', 'o', 'l'],
        kind_name(ModifierKind::Shift) == seq!['S', 'h', 'i', 'f', 't'],
        kind_name(ModifierKind::Alt) == seq!['A', 'l', 't'],
        kind_name(ModifierKind::Meta) == seq!['M', 'e', 't', 'a'],
        side_name(ModifierSide::Left) == seq!['L', 'e', 'f', 't'],
        side_name(ModifierSide::Right) == seq!['R', 'i', 'g', 'h', 't'],
        side_name(ModifierSide::Either) == seq!['E', 'i', 't', 'h', 'e', 'r'],
{
    reveal_strlit("Control");
    reveal_strlit("Shift");
    reveal_strlit("Alt");
    reveal_strlit("Meta");
    reveal_strlit("Left");
    reveal_strlit("Right");
    reveal_strlit("Either");
    assert("Control"@ =~= seq!['C', 'o', 'n', 't', 'r', 'o', 'l']);
    assert("Shift"@ =~= seq!['S', 'h', 'i', 'f', 't']);
    assert("Alt"@ =~= seq!['A', 'l', 't']);
    assert("Meta"@ =~= seq!['M', 'e', 't', 'a']);
    assert("Left"@ =~= seq!['L', 'e', 'f', 't']);
    assert("Right"@ =~= seq!['R', 'i', 'g', 'h', 't']);
    assert("Either"@ =~= seq!['E', 'i', 't', 'h', 'e', 'r']);
}

/// A binding is written out by the name of its key and, modifier by modifier in their order, by the
/// kind and the side of each.
pub proof fn law_binding_is_written_out(js: JsBinding, b: Binding, i: int)
    requires
        is_binding_text(js, b),
        0 <= i < b.modifiers@.len(),
    ensures
        js.modifiers@.len() == b.modifiers@.len(),
        js.modifiers@[i].kind@ == kind_name(b.modifiers@[i].0),
        js.modifiers@[i].side@ == side_name(b.modifiers@[i].1),
        letter_on(b.primary.0) matches Some(c) ==> js.primary@ == seq!['K', 'e', 'y', c],
        digit_on(b.primary.0) matches Some(c) ==> js.primary@ == seq!['D', 'i', 'g', 'i', 't', c],
{
    law_keys_are_named_after_themselves(b.primary.0);
    assert(is_modifier_text(js.modifiers@[i], b.modifiers@[i]));
}

/// What cannot be read is told, and as what it was read.
pub proof fn law_unreadable_parts_are_told(e: BindingConversionError)
    ensures
        e matches BindingConversionError::UnknownKey(s) ==> e.text() == seq![
            'u', 'n', 'k', 'n', 'o', 'w', 'n', ' ', 'k', 'e', 'y', ' ', 'c', 'o', 'd', 'e', ':',
            ' ',
        ] + s@,
        e matches BindingConversionError::UnknownModifierKind(s) ==> e.text()
            == seq![
                'u', 'n', 'k', 'n', 'o', 'w', 'n', ' ', 'm', 'o', 'd', 'i', 'f', 'i', 'e', 'r',
                ' ', 'k', 'i', 'n', 'd', ':', ' ',
            ] + s@,
        e matches BindingConversionError::UnknownModifierSide(s) ==> e.text()
            == seq![
                'u', 'n', 'k', 'n', 'o', 'w', 'n', ' ', 'm', 'o', 'd', 'i', 'f', 'i', 'e', 'r',
                ' ', 's', 'i', 'd', 'e', ':', ' ',
            ] + s@,
{
    reveal_strlit("unknown key code: ");
    assert("unknown key code: "@ =~= seq![
        'u', 'n', 'k', 'n', 'o', 'w', 'n', ' ', 'k', 'e', 'y', ' ', 'c', 'o', 'd', 'e', ':', ' ',
    ]);
    reveal_strlit("unknown modifier kind: ");
    assert("unknown modifier kind: "@ =~= seq![
        'u', 'n', 'k', 'n', 'o', 'w', 'n', ' ', 'm', 'o', 'd', 'i', 'f', 'i', 'e', 'r', ' ', 'k',
        'i', 'n', 'd', ':', ' ',
    ]);
    reveal_strlit("unknown modifier side: ");
    assert("unknown modifier side: "@ =~= seq![
        'u', 'n', 'k', 'n', 'o', 'w', 'n', ' ', 'm', 'o', 'd', 'i', 'f', 'i', 'e', 'r', ' ', 's',
        'i', 'd', 'e', ':', ' ',
    ]);
}

/// Four words name a kind of modifier and three a side; no other does.
pub proof fn law_words_for_modifiers(s: Seq<char>)
    ensures
        names_kind(s) <==> s == seq!['C', 'o', 'n', 't', 'r', 'o', 'l'] || s == seq!['S', 'h', 'i', 'f', 't'] || s == seq!['A', 'l', 't'] || s == seq!['M', 'e', 't', 'a'],
        names_side(s) <==> s == seq!['L', 'e', 'f', 't'] || s == seq!['R', 'i', 'g', 'h', 't'] || s == seq!['E', 'i', 't', 'h', 'e', 'r'],
{
    law_modifiers_are_named_after_themselves();
    assert(kind_name(ModifierKind::Control) == seq!['C', 'o', 'n', 't', 'r', 'o', 'l']);
    assert(kind_name(ModifierKind::Shift) == seq!['S', 'h', 'i', 'f', 't']);
    assert(kind_name(ModifierKind::Alt) == seq!['A', 'l', 't']);
    assert(kind_name(ModifierKind::Meta) == seq!['M', 'e', 't', 'a']);
    assert(side_name(ModifierSide::Left) == seq!['L', 'e', 'f', 't']);
    assert(side_name(ModifierSide::Right) == seq!['R', 'i', 'g', 'h', 't']);
    assert(side_name(ModifierSide::Either) == seq!['E', 'i', 't', 'h', 'e', 'r']);
}

/// Modifiers are read from the first on: one more can be read exactly where those before it can, and
/// its own kind and side.
pub proof fn law_modifiers_are_read_in_turn(m: Seq<JsModifier>, n: int)
    requires
        0 <= n < m.len(),
    ensures
        readable_upto(m, 0),
        readable_upto(m, n + 1) <==> readable_upto(m, n) && names_kind(m[n].kind@) && names_side(
            m[n].side@,
        ),
{
    if readable_upto(m, n + 1) {
        assert(names_kind(m[n].kind@));
        assert forall|i: int| 0 <= i < n implies names_kind((#[trigger] m[i]).kind@) && names_side(
            m[i].side@,
        ) by {}
    }
}

} // verus!
