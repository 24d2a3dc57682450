//! Global shortcuts: which of the configured bindings can be registered, and what is wrong with
//! the others.
//!
//! A system that registers shortcuts wants a regular key in each, knows no left and right of a
//! modifier, and takes each combination only once.
use vstd::prelude::*;
use vstd::string::*;

use crate::binding::{
    code_from_key, code_of, is_modifier, is_modifier_key, law_codes_are_unique,
    law_keys_are_named_after_themselves, modifier_on, Binding, Key, ModifierKind, ModifierSide,
};
use crate::search::{begins_with, law_occurs_in, occurs_in};
use crate::text::{glue3, same};

verus! {

/// What became of a key that triggers something.
#[derive(Clone, Copy, PartialEq, Eq, Structural, Debug)]
pub enum HotkeyEvent {
    Pressed,
    Released,
}

/// Pressing starts a capture, releasing ends it.
pub fn shortcut_state_to_hotkey(pressed: bool) -> (r: HotkeyEvent)
    ensures
        r == (if pressed {
            HotkeyEvent::Pressed
        } else {
            HotkeyEvent::Released
        }),
{
    if pressed {
        HotkeyEvent::Pressed
    } else {
        HotkeyEvent::Released
    }
}

/// A shortcut that could not be registered.
#[derive(Clone, PartialEq, Eq, Debug)]
pub struct HotkeyProblem {
    /// The action it belongs to: `voice-at-cursor`, `log-capture`, `action` or `edit-selection`.
    pub action: String,
    /// What the user is told.
    pub message: String,
}

/// Why a binding cannot be registered.
#[derive(Clone, Copy, PartialEq, Eq, Debug)]
pub enum UnsupportedBinding {
    /// Its primary key is a modifier.
    ModifierOnly,
    /// An earlier action has the same combination.
    DuplicateOf(&'static str),
    /// Its key has no name.
    UnmappableKey,
}

impl UnsupportedBinding {
    /// What the user is told of the action `label`.
    pub open spec fn text(self, label: Seq<char>) -> Seq<char> {
        match self {
            UnsupportedBinding::ModifierOnly => "The "@ + label
                + " shortcut is a single modifier key. Windows can only register a shortcut that includes a regular key — add a letter, digit or function key to the combination."@,
            UnsupportedBinding::UnmappableKey => "The "@ + label
                + " shortcut uses a key Windows can't register. Pick another key."@,
            UnsupportedBinding::DuplicateOf(other) => "The "@ + label
                + " shortcut is the same combination as the "@ + other@
                + " shortcut. Windows needs a different combination for each action."@,
        }
    }

    /// What the user is told of the action `label`.
    pub fn message(self, label: &str) -> (r: String)
        ensures
            r@ == self.text(label@),
    {
        match self {
            UnsupportedBinding::ModifierOnly => glue3(
                "The ",
                label,
                " shortcut is a single modifier key. Windows can only register a shortcut that includes a regular key — add a letter, digit or function key to the combination.",
            ),
            UnsupportedBinding::UnmappableKey => glue3(
                "The ",
                label,
                " shortcut uses a key Windows can't register. Pick another key.",
            ),
            UnsupportedBinding::DuplicateOf(other) => {
                let mut s = glue3("The ", label, " shortcut is the same combination as the ");
                s.append(other);
                s.append(" shortcut. Windows needs a different combination for each action.");
                s
            },
        }
    }
}

// ----- the parts of a shortcut -----

/// The place of a kind of modifier in a shortcut.
pub open spec fn rank(kind: ModifierKind) -> int {
    match kind {
        ModifierKind::Control => 0,
        ModifierKind::Shift => 1,
        ModifierKind::Alt => 2,
        ModifierKind::Meta => 3,
    }
}

/// The place of a kind of modifier in a shortcut.
pub fn modifier_rank(kind: ModifierKind) -> (r: u8)
    ensures
        r == rank(kind),
{
    match kind {
        ModifierKind::Control => 0,
        ModifierKind::Shift => 1,
        ModifierKind::Alt => 2,
        ModifierKind::Meta => 3,
    }
}

/// Whether some modifier of that kind is held.
pub open spec fn holds(m: Seq<(ModifierKind, ModifierSide)>, kind: ModifierKind) -> bool {
    exists|i: int| 0 <= i < m.len() && (#[trigger] m[i]).0 == kind
}

/// The kinds of modifier that are held, each once, in their order.
pub open spec fn kinds_of(m: Seq<(ModifierKind, ModifierSide)>) -> Seq<ModifierKind> {
    let pick = |kind: ModifierKind|
        if holds(m, kind) {
            seq![kind]
        } else {
            Seq::empty()
        };
    pick(ModifierKind::Control) + pick(ModifierKind::Shift) + pick(ModifierKind::Alt) + pick(
        ModifierKind::Meta,
    )
}

fn is_held(m: &Vec<(ModifierKind, ModifierSide)>, kind: ModifierKind) -> (r: bool)
    ensures
        r == holds(m@, kind),
{
    let mut i: usize = 0;
    while i < m.len()
        invariant
            i <= m@.len(),
            forall|k: int| 0 <= k < i ==> (#[trigger] m@[k]).0 != kind,
        decreases m@.len() - i,
    {
        if m[i].0 == kind {
            assert(m@[i as int].0 == kind);
            return true;
        }
        i = i + 1;
    }
    false
}

fn collect_kinds(m: &Vec<(ModifierKind, ModifierSide)>) -> (r: Vec<ModifierKind>)
    ensures
        r@ == kinds_of(m@),
{
    let mut v: Vec<ModifierKind> = Vec::new();
    if is_held(m, ModifierKind::Control) {
        v.push(ModifierKind::Control);
    }
    if is_held(m, ModifierKind::Shift) {
        v.push(ModifierKind::Shift);
    }
    if is_held(m, ModifierKind::Alt) {
        v.push(ModifierKind::Alt);
    }
    if is_held(m, ModifierKind::Meta) {
        v.push(ModifierKind::Meta);
    }
    assert(v@ == kinds_of(m@));
    v
}

/// Splits a binding into the name of its key and the kinds of modifier it needs. Left and right
/// make no difference, and the kinds come in a fixed order.
pub fn shortcut_parts(binding: &Binding) -> (r: Result<
    (&'static str, Vec<ModifierKind>),
    UnsupportedBinding,
>)
    ensures
        match r {
            Ok(p) => !is_modifier_key(binding.primary.0) && code_of(binding.primary.0) == Some(
                p.0@,
            ) && p.1@ == kinds_of(binding.modifiers@),
            Err(UnsupportedBinding::ModifierOnly) => is_modifier_key(binding.primary.0),
            Err(UnsupportedBinding::UnmappableKey) => !is_modifier_key(binding.primary.0)
                && code_of(binding.primary.0) is None,
            Err(UnsupportedBinding::DuplicateOf(_)) => false,
        },
{
    if is_modifier(binding.primary.0) {
        return Err(UnsupportedBinding::ModifierOnly);
    }
    match code_from_key(binding.primary.0) {
        None => Err(UnsupportedBinding::UnmappableKey),
        Some(code) => Ok((code, collect_kinds(&binding.modifiers))),
    }
}

/// Which modifiers are held decides the kinds, not their order, their sides, or how often one is
/// named.
pub proof fn law_kinds_are_canonical(
    a: Seq<(ModifierKind, ModifierSide)>,
    b: Seq<(ModifierKind, ModifierSide)>,
)
    requires
        forall|k: ModifierKind| holds(a, k) <==> holds(b, k),
    ensures
        kinds_of(a) == kinds_of(b),
{
    assert(holds(a, ModifierKind::Control) <==> holds(b, ModifierKind::Control));
    assert(holds(a, ModifierKind::Shift) <==> holds(b, ModifierKind::Shift));
    assert(holds(a, ModifierKind::Alt) <==> holds(b, ModifierKind::Alt));
    assert(holds(a, ModifierKind::Meta) <==> holds(b, ModifierKind::Meta));
}

/// The kinds are exactly those that are held, none twice, and in the order of their ranks.
pub proof fn law_kinds_are_ranked(m: Seq<(ModifierKind, ModifierSide)>)
    ensures
        forall|i: int, j: int|
            0 <= i < j < kinds_of(m).len() ==> rank(#[trigger] kinds_of(m)[i]) < rank(
                #[trigger] kinds_of(m)[j],
            ),
        forall|k: ModifierKind| #[trigger] kinds_of(m).contains(k) <==> holds(m, k),
{
    let s = kinds_of(m);
    let c = holds(m, ModifierKind::Control);
    let h = holds(m, ModifierKind::Shift);
    let a = holds(m, ModifierKind::Alt);
    let e = holds(m, ModifierKind::Meta);
    let n = |b: bool|
        if b {
            1int
        } else {
            0int
        };
    assert forall|k: ModifierKind| #[trigger] s.contains(k) <==> holds(m, k) by {
        if holds(m, k) {
            match k {
                ModifierKind::Control => assert(s[0] == k),
                ModifierKind::Shift => assert(s[n(c)] == k),
                ModifierKind::Alt => assert(s[n(c) + n(h)] == k),
                ModifierKind::Meta => assert(s[n(c) + n(h) + n(a)] == k),
            }
        }
        if s.contains(k) {
            let i = choose|i: int| 0 <= i < s.len() && s[i] == k;
        }
    }
}

// ----- keys that can be registered -----

/// The keys that a shortcut can have.
#[derive(Clone, Copy, PartialEq, Eq, Structural, Debug)]
pub enum Code {
    Space,
    Tab,
    Escape,
    Enter,
    Backspace,
    KeyA,
    KeyB,
    KeyC,
    KeyD,
    KeyE,
    KeyF,
    KeyG,
    KeyH,
    KeyI,
    KeyJ,
    KeyK,
    KeyL,
    KeyM,
    KeyN,
    KeyO,
    KeyP,
    KeyQ,
    KeyR,
    KeyS,
    KeyT,
    KeyU,
    KeyV,
    KeyW,
    KeyX,
    KeyY,
    KeyZ,
    Digit0,
    Digit1,
    Digit2,
    Digit3,
    Digit4,
    Digit5,
    Digit6,
    Digit7,
    Digit8,
    Digit9,
    F1,
    F2,
    F3,
    F4,
    F5,
    F6,
    F7,
    F8,
    F9,
    F10,
    F11,
    F12,
    Period,
    Comma,
    Semicolon,
    Quote,
    BracketLeft,
    BracketRight,
    Backslash,
    Slash,
    Minus,
    Equal,
    Backquote,
}

/// The name of a key that a shortcut can have.
pub open spec fn code_name(code: Code) -> Seq<char> {
    match code {
        Code::Space => "Space"@,
        Code::Tab => "Tab"@,
        Code::Escape => "Escape"@,
        Code::Enter => "Enter"@,
        Code::Backspace => "Backspace"@,
        Code::KeyA => "KeyA"@,
        Code::KeyB => "KeyB"@,
        Code::KeyC => "KeyC"@,
        Code::KeyD => "KeyD"@,
        Code::KeyE => "KeyE"@,
        Code::KeyF => "KeyF"@,
        Code::KeyG => "KeyG"@,
        Code::KeyH => "KeyH"@,
        Code::KeyI => "KeyI"@,
        Code::KeyJ => "KeyJ"@,
        Code::KeyK => "KeyK"@,
        Code::KeyL => "KeyL"@,
        Code::KeyM => "KeyM"@,
        Code::KeyN => "KeyN"@,
        Code::KeyO => "KeyO"@,
        Code::KeyP => "KeyP"@,
        Code::KeyQ => "KeyQ"@,
        Code::KeyR => "KeyR"@,
        Code::KeyS => "KeyS"@,
        Code::KeyT => "KeyT"@,
        Code::KeyU => "KeyU"@,
        Code::KeyV => "KeyV"@,
        Code::KeyW => "KeyW"@,
        Code::KeyX => "KeyX"@,
        Code::KeyY => "KeyY"@,
        Code::KeyZ => "KeyZ"@,
        Code::Digit0 => "Digit0"@,
        Code::Digit1 => "Digit1"@,
        Code::Digit2 => "Digit2"@,
        Code::Digit3 => "Digit3"@,
        Code::Digit4 => "Digit4"@,
        Code::Digit5 => "Digit5"@,
        Code::Digit6 => "Digit6"@,
        Code::Digit7 => "Digit7"@,
        Code::Digit8 => "Digit8"@,
        Code::Digit9 => "Digit9"@,
        Code::F1 => "F1"@,
        Code::F2 => "F2"@,
        Code::F3 => "F3"@,
        Code::F4 => "F4"@,
        Code::F5 => "F5"@,
        Code::F6 => "F6"@,
        Code::F7 => "F7"@,
        Code::F8 => "F8"@,
        Code::F9 => "F9"@,
        Code::F10 => "F10"@,
        Code::F11 => "F11"@,
        Code::F12 => "F12"@,
        Code::Period => "Period"@,
        Code::Comma => "Comma"@,
        Code::Semicolon => "Semicolon"@,
        Code::Quote => "Quote"@,
        Code::BracketLeft => "BracketLeft"@,
        Code::BracketRight => "BracketRight"@,
        Code::Backslash => "Backslash"@,
        Code::Slash => "Slash"@,
        Code::Minus => "Minus"@,
        Code::Equal => "Equal"@,
        Code::Backquote => "Backquote"@,
    }
}

/// The key that a shortcut is registered under when it is bound to `key`: the same key of the
/// keyboard. Modifiers and unknown keys have none.
pub open spec fn physical(key: Key) -> Option<Code> {
    match key {
        Key::Space => Some(Code::Space),
        Key::Tab => Some(Code::Tab),
        Key::Escape => Some(Code::Escape),
        Key::Return => Some(Code::Enter),
        Key::Backspace => Some(Code::Backspace),
        Key::KeyA => Some(Code::KeyA),
        Key::KeyB => Some(Code::KeyB),
        Key::KeyC => Some(Code::KeyC),
        Key::KeyD => Some(Code::KeyD),
        Key::KeyE => Some(Code::KeyE),
        Key::KeyF => Some(Code::KeyF),
        Key::KeyG => Some(Code::KeyG),
        Key::KeyH => Some(Code::KeyH),
        Key::KeyI => Some(Code::KeyI),
        Key::KeyJ => Some(Code::KeyJ),
        Key::KeyK => Some(Code::KeyK),
        Key::KeyL => Some(Code::KeyL),
        Key::KeyM => Some(Code::KeyM),
        Key::KeyN => Some(Code::KeyN),
        Key::KeyO => Some(Code::KeyO),
        Key::KeyP => Some(Code::KeyP),
        Key::KeyQ => Some(Code::KeyQ),
        Key::KeyR => Some(Code::KeyR),
        Key::KeyS => Some(Code::KeyS),
        Key::KeyT => Some(Code::KeyT),
        Key::KeyU => Some(Code::KeyU),
        Key::KeyV => Some(Code::KeyV),
        Key::KeyW => Some(Code::KeyW),
        Key::KeyX => Some(Code::KeyX),
        Key::KeyY => Some(Code::KeyY),
        Key::KeyZ => Some(Code::KeyZ),
        Key::Num0 => Some(Code::Digit0),
        Key::Num1 => Some(Code::Digit1),
        Key::Num2 => Some(Code::Digit2),
        Key::Num3 => Some(Code::Digit3),
        Key::Num4 => Some(Code::Digit4),
        Key::Num5 => Some(Code::Digit5),
        Key::Num6 => Some(Code::Digit6),
        Key::Num7 => Some(Code::Digit7),
        Key::Num8 => Some(Code::Digit8),
        Key::Num9 => Some(Code::Digit9),
        Key::F1 => Some(Code::F1),
        Key::F2 => Some(Code::F2),
        Key::F3 => Some(Code::F3),
        Key::F4 => Some(Code::F4),
        Key::F5 => Some(Code::F5),
        Key::F6 => Some(Code::F6),
        Key::F7 => Some(Code::F7),
        Key::F8 => Some(Code::F8),
        Key::F9 => Some(Code::F9),
        Key::F10 => Some(Code::F10),
        Key::F11 => Some(Code::F11),
        Key::F12 => Some(Code::F12),
        Key::Dot => Some(Code::Period),
        Key::Comma => Some(Code::Comma),
        Key::SemiColon => Some(Code::Semicolon),
        Key::Quote => Some(Code::Quote),
        Key::LeftBracket => Some(Code::BracketLeft),
        Key::RightBracket => Some(Code::BracketRight),
        Key::BackSlash => Some(Code::Backslash),
        Key::Slash => Some(Code::Slash),
        Key::Minus => Some(Code::Minus),
        Key::Equal => Some(Code::Equal),
        Key::BackQuote => Some(Code::Backquote),
        _ => None,
    }
}

/// The key of the keyboard that a registered code stands for.
pub open spec fn key_behind(code: Code) -> Key {
    match code {
        Code::Space => Key::Space,
        Code::Tab => Key::Tab,
        Code::Escape => Key::Escape,
        Code::Enter => Key::Return,
        Code::Backspace => Key::Backspace,
        Code::KeyA => Key::KeyA,
        Code::KeyB => Key::KeyB,
        Code::KeyC => Key::KeyC,
        Code::KeyD => Key::KeyD,
        Code::KeyE => Key::KeyE,
        Code::KeyF => Key::KeyF,
        Code::KeyG => Key::KeyG,
        Code::KeyH => Key::KeyH,
        Code::KeyI => Key::KeyI,
        Code::KeyJ => Key::KeyJ,
        Code::KeyK => Key::KeyK,
        Code::KeyL => Key::KeyL,
        Code::KeyM => Key::KeyM,
        Code::KeyN => Key::KeyN,
        Code::KeyO => Key::KeyO,
        Code::KeyP => Key::KeyP,
        Code::KeyQ => Key::KeyQ,
        Code::KeyR => Key::KeyR,
        Code::KeyS => Key::KeyS,
        Code::KeyT => Key::KeyT,
        Code::KeyU => Key::KeyU,
        Code::KeyV => Key::KeyV,
        Code::KeyW => Key::KeyW,
        Code::KeyX => Key::KeyX,
        Code::KeyY => Key::KeyY,
        Code::KeyZ => Key::KeyZ,
        Code::Digit0 => Key::Num0,
        Code::Digit1 => Key::Num1,
        Code::Digit2 => Key::Num2,
        Code::Digit3 => Key::Num3,
        Code::Digit4 => Key::Num4,
        Code::Digit5 => Key::Num5,
        Code::Digit6 => Key::Num6,
        Code::Digit7 => Key::Num7,
        Code::Digit8 => Key::Num8,
        Code::Digit9 => Key::Num9,
        Code::F1 => Key::F1,
        Code::F2 => Key::F2,
        Code::F3 => Key::F3,
        Code::F4 => Key::F4,
        Code::F5 => Key::F5,
        Code::F6 => Key::F6,
        Code::F7 => Key::F7,
        Code::F8 => Key::F8,
        Code::F9 => Key::F9,
        Code::F10 => Key::F10,
        Code::F11 => Key::F11,
        Code::F12 => Key::F12,
        Code::Period => Key::Dot,
        Code::Comma => Key::Comma,
        Code::Semicolon => Key::SemiColon,
        Code::Quote => Key::Quote,
        Code::BracketLeft => Key::LeftBracket,
        Code::BracketRight => Key::RightBracket,
        Code::Backslash => Key::BackSlash,
        Code::Slash => Key::Slash,
        Code::Minus => Key::Minus,
        Code::Equal => Key::Equal,
        Code::Backquote => Key::BackQuote,
    }
}

/// A key and a code share a name exactly where they are the same key of the keyboard, and each code
/// is that of one key.
pub proof fn law_same_name_is_same_key(key: Key, code: Code)
    ensures
        code_of(key) == Some(code_name(code)) <==> physical(key) == Some(code),
        physical(key) == Some(code) <==> key == key_behind(code),
        physical(key) is None <==> is_modifier_key(key) || key is Unknown,
{
    assert(code_of(key_behind(code)) == Some(code_name(code)));
    if code_of(key) == Some(code_name(code)) {
        law_codes_are_unique(key, key_behind(code));
    }
}

/// The key of that name.
pub fn code_for(code: &str) -> (r: Option<Code>)
    ensures
        match r {
            Some(c) => code_name(c) == code@,
            None => forall|c: Code| code_name(c) != code@,
        },
        r matches Some(c) ==> code_of(key_behind(c)) == Some(code@),
{
    if same(code, "Space") {
        return Some(Code::Space);
    }
    if same(code, "Tab") {
        return Some(Code::Tab);
    }
    if same(code, "Escape") {
        return Some(Code::Escape);
    }
    if same(code, "Enter") {
        return Some(Code::Enter);
    }
    if same(code, "Backspace") {
        return Some(Code::Backspace);
    }
    if same(code, "KeyA") {
        return Some(Code::KeyA);
    }
    if same(code, "KeyB") {
        return Some(Code::KeyB);
    }
    if same(code, "KeyC") {
        return Some(Code::KeyC);
    }
    if same(code, "KeyD") {
        return Some(Code::KeyD);
    }
    if same(code, "KeyE") {
        return Some(Code::KeyE);
    }
    if same(code, "KeyF") {
        return Some(Code::KeyF);
    }
    if same(code, "KeyG") {
        return Some(Code::KeyG);
    }
    if same(code, "KeyH") {
        return Some(Code::KeyH);
    }
    if same(code, "KeyI") {
        return Some(Code::KeyI);
    }
    if same(code, "KeyJ") {
        return Some(Code::KeyJ);
    }
    if same(code, "KeyK") {
        return Some(Code::KeyK);
    }
    if same(code, "KeyL") {
        return Some(Code::KeyL);
    }
    if same(code, "KeyM") {
        return Some(Code::KeyM);
    }
    if same(code, "KeyN") {
        return Some(Code::KeyN);
    }
    if same(code, "KeyO") {
        return Some(Code::KeyO);
    }
    if same(code, "KeyP") {
        return Some(Code::KeyP);
    }
    if same(code, "KeyQ") {
        return Some(Code::KeyQ);
    }
    if same(code, "KeyR") {
        return Some(Code::KeyR);
    }
    if same(code, "KeyS") {
        return Some(Code::KeyS);
    }
    if same(code, "KeyT") {
        return Some(Code::KeyT);
    }
    if same(code, "KeyU") {
        return Some(Code::KeyU);
    }
    if same(code, "KeyV") {
        return Some(Code::KeyV);
    }
    if same(code, "KeyW") {
        return Some(Code::KeyW);
    }
    if same(code, "KeyX") {
        return Some(Code::KeyX);
    }
    if same(code, "KeyY") {
        return Some(Code::KeyY);
    }
    if same(code, "KeyZ") {
        return Some(Code::KeyZ);
    }
    if same(code, "Digit0") {
        return Some(Code::Digit0);
    }
    if same(code, "Digit1") {
        return Some(Code::Digit1);
    }
    if same(code, "Digit2") {
        return Some(Code::Digit2);
    }
    if same(code, "Digit3") {
        return Some(Code::Digit3);
    }
    if same(code, "Digit4") {
        return Some(Code::Digit4);
    }
    if same(code, "Digit5") {
        return Some(Code::Digit5);
    }
    if same(code, "Digit6") {
        return Some(Code::Digit6);
    }
    if same(code, "Digit7") {
        return Some(Code::Digit7);
    }
    if same(code, "Digit8") {
        return Some(Code::Digit8);
    }
    if same(code, "Digit9") {
        return Some(Code::Digit9);
    }
    if same(code, "F1") {
        return Some(Code::F1);
    }
    if same(code, "F2") {
        return Some(Code::F2);
    }
    if same(code, "F3") {
        return Some(Code::F3);
    }
    if same(code, "F4") {
        return Some(Code::F4);
    }
    if same(code, "F5") {
        return Some(Code::F5);
    }
    if same(code, "F6") {
        return Some(Code::F6);
    }
    if same(code, "F7") {
        return Some(Code::F7);
    }
    if same(code, "F8") {
        return Some(Code::F8);
    }
    if same(code, "F9") {
        return Some(Code::F9);
    }
    if same(code, "F10") {
        return Some(Code::F10);
    }
    if same(code, "F11") {
        return Some(Code::F11);
    }
    if same(code, "F12") {
        return Some(Code::F12);
    }
    if same(code, "Period") {
        return Some(Code::Period);
    }
    if same(code, "Comma") {
        return Some(Code::Comma);
    }
    if same(code, "Semicolon") {
        return Some(Code::Semicolon);
    }
    if same(code, "Quote") {
        return Some(Code::Quote);
    }
    if same(code, "BracketLeft") {
        return Some(Code::BracketLeft);
    }
    if same(code, "BracketRight") {
        return Some(Code::BracketRight);
    }
    if same(code, "Backslash") {
        return Some(Code::Backslash);
    }
    if same(code, "Slash") {
        return Some(Code::Slash);
    }
    if same(code, "Minus") {
        return Some(Code::Minus);
    }
    if same(code, "Equal") {
        return Some(Code::Equal);
    }
    if same(code, "Backquote") {
        return Some(Code::Backquote);
    }
    None
}

/// Every key with a name that is no modifier can be registered.
pub proof fn law_named_keys_register(key: Key)
    requires
        !is_modifier_key(key),
        code_of(key) is Some,
    ensures
        exists|c: Code| code_name(c) == code_of(key)->0,
{
    match key {
        Key::Space => assert(code_name(Code::Space) == code_of(key)->0),
        Key::Tab => assert(code_name(Code::Tab) == code_of(key)->0),
        Key::Escape => assert(code_name(Code::Escape) == code_of(key)->0),
        Key::Return => assert(code_name(Code::Enter) == code_of(key)->0),
        Key::Backspace => assert(code_name(Code::Backspace) == code_of(key)->0),
        Key::KeyA => assert(code_name(Code::KeyA) == code_of(key)->0),
        Key::KeyB => assert(code_name(Code::KeyB) == code_of(key)->0),
        Key::KeyC => assert(code_name(Code::KeyC) == code_of(key)->0),
        Key::KeyD => assert(code_name(Code::KeyD) == code_of(key)->0),
        Key::KeyE => assert(code_name(Code::KeyE) == code_of(key)->0),
        Key::KeyF => assert(code_name(Code::KeyF) == code_of(key)->0),
        Key::KeyG => assert(code_name(Code::KeyG) == code_of(key)->0),
        Key::KeyH => assert(code_name(Code::KeyH) == code_of(key)->0),
        Key::KeyI => assert(code_name(Code::KeyI) == code_of(key)->0),
        Key::KeyJ => assert(code_name(Code::KeyJ) == code_of(key)->0),
        Key::KeyK => assert(code_name(Code::KeyK) == code_of(key)->0),
        Key::KeyL => assert(code_name(Code::KeyL) == code_of(key)->0),
        Key::KeyM => assert(code_name(Code::KeyM) == code_of(key)->0),
        Key::KeyN => assert(code_name(Code::KeyN) == code_of(key)->0),
        Key::KeyO => assert(code_name(Code::KeyO) == code_of(key)->0),
        Key::KeyP => assert(code_name(Code::KeyP) == code_of(key)->0),
        Key::KeyQ => assert(code_name(Code::KeyQ) == code_of(key)->0),
        Key::KeyR => assert(code_name(Code::KeyR) == code_of(key)->0),
        Key::KeyS => assert(code_name(Code::KeyS) == code_of(key)->0),
        Key::KeyT => assert(code_name(Code::KeyT) == code_of(key)->0),
        Key::KeyU => assert(code_name(Code::KeyU) == code_of(key)->0),
        Key::KeyV => assert(code_name(Code::KeyV) == code_of(key)->0),
        Key::KeyW => assert(code_name(Code::KeyW) == code_of(key)->0),
        Key::KeyX => assert(code_name(Code::KeyX) == code_of(key)->0),
        Key::KeyY => assert(code_name(Code::KeyY) == code_of(key)->0),
        Key::KeyZ => assert(code_name(Code::KeyZ) == code_of(key)->0),
        Key::Num0 => assert(code_name(Code::Digit0) == code_of(key)->0),
        Key::Num1 => assert(code_name(Code::Digit1) == code_of(key)->0),
        Key::Num2 => assert(code_name(Code::Digit2) == code_of(key)->0),
        Key::Num3 => assert(code_name(Code::Digit3) == code_of(key)->0),
        Key::Num4 => assert(code_name(Code::Digit4) == code_of(key)->0),
        Key::Num5 => assert(code_name(Code::Digit5) == code_of(key)->0),
        Key::Num6 => assert(code_name(Code::Digit6) == code_of(key)->0),
        Key::Num7 => assert(code_name(Code::Digit7) == code_of(key)->0),
        Key::Num8 => assert(code_name(Code::Digit8) == code_of(key)->0),
        Key::Num9 => assert(code_name(Code::Digit9) == code_of(key)->0),
        Key::F1 => assert(code_name(Code::F1) == code_of(key)->0),
        Key::F2 => assert(code_name(Code::F2) == code_of(key)->0),
        Key::F3 => assert(code_name(Code::F3) == code_of(key)->0),
        Key::F4 => assert(code_name(Code::F4) == code_of(key)->0),
        Key::F5 => assert(code_name(Code::F5) == code_of(key)->0),
        Key::F6 => assert(code_name(Code::F6) == code_of(key)->0),
        Key::F7 => assert(code_name(Code::F7) == code_of(key)->0),
        Key::F8 => assert(code_name(Code::F8) == code_of(key)->0),
        Key::F9 => assert(code_name(Code::F9) == code_of(key)->0),
        Key::F10 => assert(code_name(Code::F10) == code_of(key)->0),
        Key::F11 => assert(code_name(Code::F11) == code_of(key)->0),
        Key::F12 => assert(code_name(Code::F12) == code_of(key)->0),
        Key::Dot => assert(code_name(Code::Period) == code_of(key)->0),
        Key::Comma => assert(code_name(Code::Comma) == code_of(key)->0),
        Key::SemiColon => assert(code_name(Code::Semicolon) == code_of(key)->0),
        Key::Quote => assert(code_name(Code::Quote) == code_of(key)->0),
        Key::LeftBracket => assert(code_name(Code::BracketLeft) == code_of(key)->0),
        Key::RightBracket => assert(code_name(Code::BracketRight) == code_of(key)->0),
        Key::BackSlash => assert(code_name(Code::Backslash) == code_of(key)->0),
        Key::Slash => assert(code_name(Code::Slash) == code_of(key)->0),
        Key::Minus => assert(code_name(Code::Minus) == code_of(key)->0),
        Key::Equal => assert(code_name(Code::Equal) == code_of(key)->0),
        Key::BackQuote => assert(code_name(Code::Backquote) == code_of(key)->0),
        _ => {},
    }
}

// ----- all shortcuts together -----

/// What a shortcut starts.
#[derive(Clone, Copy, PartialEq, Eq, Structural, Debug)]
pub enum Action {
    VoiceAtCursor,
    LogCapture,
    ActionCommand,
    EditSelection,
}

impl Action {
    /// The action's name.
    pub open spec fn slug(self) -> Seq<char> {
        match self {
            Action::VoiceAtCursor => "voice-at-cursor"@,
            Action::LogCapture => "log-capture"@,
            Action::ActionCommand => "action"@,
            Action::EditSelection => "edit-selection"@,
        }
    }

    /// The action's place among the actions.
    pub open spec fn order(self) -> int {
        match self {
            Action::VoiceAtCursor => 0,
            Action::LogCapture => 1,
            Action::ActionCommand => 2,
            Action::EditSelection => 3,
        }
    }

    /// The action's name.
    pub fn label(self) -> (r: &'static str)
        ensures
            r@ == self.slug(),
    {
        match self {
            Action::VoiceAtCursor => "voice-at-cursor",
            Action::LogCapture => "log-capture",
            Action::ActionCommand => "action",
            Action::EditSelection => "edit-selection",
        }
    }
}

/// An action with the binding that the user gave it.
#[derive(Debug)]
pub struct Configured {
    pub action: Action,
    pub binding: Binding,
}

/// The bindings that could be read, each with the action it starts.
pub open spec fn configured_with(
    voice: Option<Binding>,
    log_capture: Option<Binding>,
    action: Option<Binding>,
    edit_selection: Option<Binding>,
) -> Seq<Configured> {
    entry(Action::VoiceAtCursor, voice) + entry(Action::LogCapture, log_capture) + entry(
        Action::ActionCommand,
        action,
    ) + entry(Action::EditSelection, edit_selection)
}

/// The bindings that could be read, with the actions they start.
pub fn configured(
    voice: Option<Binding>,
    log_capture: Option<Binding>,
    action: Option<Binding>,
    edit_selection: Option<Binding>,
) -> (r: Vec<Configured>)
    ensures
        r@ == configured_with(voice, log_capture, action, edit_selection),
        in_order(r@),
{
    let mut v: Vec<Configured> = Vec::new();
    push_entry(&mut v, Action::VoiceAtCursor, voice);
    push_entry(&mut v, Action::LogCapture, log_capture);
    push_entry(&mut v, Action::ActionCommand, action);
    push_entry(&mut v, Action::EditSelection, edit_selection);
    assert(Seq::<Configured>::empty() + entry(Action::VoiceAtCursor, voice) == entry(
        Action::VoiceAtCursor,
        voice,
    ));
    v
}

/// Whether actions stand in their order, each once at most.
pub open spec fn in_order(all: Seq<Configured>) -> bool {
    forall|i: int, j: int|
        0 <= i < j < all.len() ==> (#[trigger] all[i]).action.order() < (
        #[trigger] all[j]).action.order()
}

/// An action with its binding, where there is one.
pub open spec fn entry(action: Action, binding: Option<Binding>) -> Seq<Configured> {
    match binding {
        Some(b) => seq![Configured { action, binding: b }],
        None => Seq::empty(),
    }
}

fn push_entry(v: &mut Vec<Configured>, action: Action, binding: Option<Binding>)
    ensures
        final(v)@ == old(v)@ + entry(action, binding),
{
    let ghost was = v@;
    if let Some(b) = binding {
        v.push(Configured { action, binding: b });
        assert(v@ == was + entry(action, Some(b)));
    } else {
        assert(v@ == was + entry(action, None));
    }
}

/// What is done for a binding.
#[derive(Debug)]
pub enum ShortcutStep {
    /// Register the key with these modifiers.
    Register(Code, Vec<ModifierKind>),
    Refuse(UnsupportedBinding),
}

/// Whether a binding can be registered by itself.
pub open spec fn supported(b: Binding) -> bool {
    !is_modifier_key(b.primary.0) && code_of(b.primary.0) is Some
}

/// Whether two bindings are the same combination.
pub open spec fn collide(a: Binding, b: Binding) -> bool {
    &&& supported(a)
    &&& supported(b)
    &&& code_of(a.primary.0) == code_of(b.primary.0)
    &&& kinds_of(a.modifiers@) == kinds_of(b.modifiers@)
}

/// Whether the binding at `j` is the first that is the same combination as the one at `i`.
pub open spec fn is_first_like(all: Seq<Configured>, i: int, j: int) -> bool {
    &&& 0 <= j < i
    &&& collide(all[j].binding, all[i].binding)
    &&& forall|k: int| 0 <= k < j ==> !collide((#[trigger] all[k]).binding, all[i].binding)
}

/// Whether a step is the right one for the binding at `i`.
pub open spec fn is_step(all: Seq<Configured>, i: int, step: ShortcutStep) -> bool {
    let b = all[i].binding;
    if is_modifier_key(b.primary.0) {
        step matches ShortcutStep::Refuse(UnsupportedBinding::ModifierOnly)
    } else if code_of(b.primary.0) is None {
        step matches ShortcutStep::Refuse(UnsupportedBinding::UnmappableKey)
    } else if exists|j: int| is_first_like(all, i, j) {
        exists|j: int| #[trigger]
            is_first_like(all, i, j) && (step matches ShortcutStep::Refuse(
                UnsupportedBinding::DuplicateOf(other),
            ) && other@ == all[j].action.slug())
    } else {
        step matches ShortcutStep::Register(c, kinds) && code_of(b.primary.0) == Some(code_name(c))
            && kinds@ == kinds_of(b.modifiers@)
    }
}

fn same_kinds(a: &Vec<ModifierKind>, b: &Vec<ModifierKind>) -> (r: bool)
    ensures
        r == (a@ == b@),
{
    if a.len() != b.len() {
        return false;
    }
    let mut i: usize = 0;
    while i < a.len()
        invariant
            i <= a@.len() == b@.len(),
            forall|k: int| 0 <= k < i ==> a@[k] == b@[k],
        decreases a@.len() - i,
    {
        if a[i] != b[i] {
            return false;
        }
        i = i + 1;
    }
    assert(a@ == b@);
    true
}

/// The first binding before `i` that is the same combination.
fn find_like(all: &Vec<Configured>, i: usize, code: &str, kinds: &Vec<ModifierKind>) -> (r: Option<
    usize,
>)
    requires
        i < all@.len(),
        supported(all@[i as int].binding),
        code_of(all@[i as int].binding.primary.0) == Some(code@),
        kinds@ == kinds_of(all@[i as int].binding.modifiers@),
    ensures
        match r {
            Some(j) => is_first_like(all@, i as int, j as int),
            None => forall|j: int| !is_first_like(all@, i as int, j),
        },
{
    let mut j: usize = 0;
    while j < i
        invariant
            j <= i < all@.len(),
            supported(all@[i as int].binding),
            code_of(all@[i as int].binding.primary.0) == Some(code@),
            kinds@ == kinds_of(all@[i as int].binding.modifiers@),
            forall|k: int|
                0 <= k < j ==> !collide((#[trigger] all@[k]).binding, all@[i as int].binding),
        decreases i - j,
    {
        if let Ok((c, k)) = shortcut_parts(&all[j].binding) {
            if same(c, code) && same_kinds(&k, kinds) {
                return Some(j);
            }
        }
        j = j + 1;
    }
    None
}

/// Decides, for each binding in turn, whether it is registered or what is wrong with it.
pub fn plan_shortcuts(all: &Vec<Configured>) -> (r: Vec<ShortcutStep>)
    ensures
        r@.len() == all@.len(),
        forall|i: int| 0 <= i < all@.len() ==> is_step(all@, i, #[trigger] r@[i]),
        forall|i: int|
            0 <= i < all@.len() ==> ((#[trigger] r@[i]) matches ShortcutStep::Register(c, _)
                ==> physical(all@[i].binding.primary.0) == Some(c)),
{
    let mut out: Vec<ShortcutStep> = Vec::new();
    let mut i: usize = 0;
    while i < all.len()
        invariant
            i <= all@.len(),
            out@.len() == i,
            forall|k: int| 0 <= k < i ==> is_step(all@, k, #[trigger] out@[k]),
            forall|k: int|
                0 <= k < i ==> ((#[trigger] out@[k]) matches ShortcutStep::Register(c, _)
                    ==> physical(all@[k].binding.primary.0) == Some(c)),
        decreases all@.len() - i,
    {
        let step = match shortcut_parts(&all[i].binding) {
            Err(e) => ShortcutStep::Refuse(e),
            Ok((code, kinds)) => match find_like(all, i, code, &kinds) {
                Some(j) => ShortcutStep::Refuse(
                    UnsupportedBinding::DuplicateOf(all[j].action.label()),
                ),
                None => match code_for(code) {
                    Some(c) => {
                        proof {
                            law_same_name_is_same_key(all@[i as int].binding.primary.0, c);
                        }
                        ShortcutStep::Register(c, kinds)
                    },
                    None => {
                        proof {
                            law_named_keys_register(all@[i as int].binding.primary.0);
                        }
                        ShortcutStep::Refuse(UnsupportedBinding::UnmappableKey)
                    },
                },
            },
        };
        assert(is_step(all@, i as int, step));
        out.push(step);
        i = i + 1;
    }
    out
}

/// Whether two bindings are the same keys of the keyboard, left and right modifiers being one.
pub open spec fn same_keys(a: Binding, b: Binding) -> bool {
    &&& physical(a.primary.0) is Some
    &&& physical(a.primary.0) == physical(b.primary.0)
    &&& forall|k: ModifierKind| #[trigger] holds(a.modifiers@, k) <==> holds(b.modifiers@, k)
}

/// Two bindings are the same combination exactly where they are the same keys of the keyboard.
pub proof fn law_same_keys_collide(a: Binding, b: Binding)
    ensures
        collide(a, b) <==> same_keys(a, b),
{
    if physical(a.primary.0) is Some {
        law_same_name_is_same_key(a.primary.0, physical(a.primary.0)->0);
        law_same_name_is_same_key(b.primary.0, physical(a.primary.0)->0);
    } else {
        law_same_name_is_same_key(a.primary.0, Code::Space);
    }
    if same_keys(a, b) {
        law_kinds_are_canonical(a.modifiers@, b.modifiers@);
    }
    if collide(a, b) {
        law_kinds_are_ranked(a.modifiers@);
        law_kinds_are_ranked(b.modifiers@);
        assert forall|k: ModifierKind| #[trigger] holds(a.modifiers@, k) <==> holds(
            b.modifiers@,
            k,
        ) by {
            assert(kinds_of(a.modifiers@).contains(k) <==> holds(a.modifiers@, k));
            assert(kinds_of(b.modifiers@).contains(k) <==> holds(b.modifiers@, k));
        }
    }
}

/// A shortcut is registered under the very key it is bound to, with the kinds of modifier that are
/// held and no others, in the order control, shift, alt, meta. It is registered unless its key is a
/// modifier or unknown, or an earlier binding is the same keys; and then it is refused for just that
/// reason, an earlier binding being told by the name of its action.
pub proof fn law_shortcut_is_its_own_keys(all: Seq<Configured>, i: int, step: ShortcutStep)
    requires
        0 <= i < all.len(),
        is_step(all, i, step),
    ensures
        step matches ShortcutStep::Register(c, kinds) ==> {
            &&& physical(all[i].binding.primary.0) == Some(c)
            &&& forall|k: ModifierKind| #[trigger]
                kinds@.contains(k) <==> holds(all[i].binding.modifiers@, k)
            &&& kinds@.no_duplicates()
            &&& forall|p: int, q: int|
                0 <= p < q < kinds@.len() ==> (#[trigger] kinds@[p] != ModifierKind::Meta
                    && #[trigger] kinds@[q] != ModifierKind::Control && (kinds@[p]
                    == ModifierKind::Alt ==> kinds@[q] == ModifierKind::Meta))
        },
        step is Register <==> (physical(all[i].binding.primary.0) is Some && forall|j: int|
            0 <= j < i ==> !same_keys((#[trigger] all[j]).binding, all[i].binding)),
        step matches ShortcutStep::Refuse(UnsupportedBinding::ModifierOnly) <==> modifier_on(
            all[i].binding.primary.0,
        ) is Some,
        step matches ShortcutStep::Refuse(UnsupportedBinding::UnmappableKey)
            <==> all[i].binding.primary.0 is Unknown,
        step matches ShortcutStep::Refuse(UnsupportedBinding::DuplicateOf(other)) ==> exists|
            j: int,
        |
            0 <= j < i && same_keys((#[trigger] all[j]).binding, all[i].binding) && other@
                == all[j].action.slug() && forall|k: int|
                0 <= k < j ==> !same_keys((#[trigger] all[k]).binding, all[i].binding),
{
    let b = all[i].binding;
    law_keys_are_named_after_themselves(b.primary.0);
    law_same_name_is_same_key(b.primary.0, Code::Space);
    law_kinds_are_ranked(b.modifiers@);
    assert forall|j: int| 0 <= j < i implies (collide((#[trigger] all[j]).binding, b)
        <==> same_keys(all[j].binding, b)) by {
        law_same_keys_collide(all[j].binding, b);
    }
    if let ShortcutStep::Register(c, kinds) = step {
        law_same_name_is_same_key(b.primary.0, c);
        assert(kinds@ == kinds_of(b.modifiers@));
        assert forall|j: int| 0 <= j < i implies !same_keys((#[trigger] all[j]).binding, b) by {
            if collide(all[j].binding, b) {
                lemma_some_first(all, i, j);
            }
        }
    }
    if step is Refuse && supported(b) {
        let j = choose|j: int| #[trigger]
            is_first_like(all, i, j) && (step matches ShortcutStep::Refuse(
                UnsupportedBinding::DuplicateOf(other),
            ) && other@ == all[j].action.slug());
        assert(same_keys(all[j].binding, b));
    }
}

/// No combination is registered twice.
pub proof fn law_registrations_are_distinct(
    all: Seq<Configured>,
    i: int,
    j: int,
    a: ShortcutStep,
    b: ShortcutStep,
)
    requires
        0 <= i < j < all.len(),
        is_step(all, i, a),
        is_step(all, j, b),
        a is Register,
        b is Register,
    ensures
        a->Register_0 != b->Register_0 || a->Register_1@ != b->Register_1@,
{
    if a->Register_0 == b->Register_0 && a->Register_1@ == b->Register_1@ {
        assert(collide(all[i].binding, all[j].binding));
        lemma_some_first(all, j, i);
    }
}

proof fn lemma_some_first(all: Seq<Configured>, i: int, j: int)
    requires
        0 <= j < i < all.len(),
        collide(all[j].binding, all[i].binding),
    ensures
        exists|k: int| is_first_like(all, i, k),
    decreases j,
{
    if exists|k: int| 0 <= k < j && collide((#[trigger] all[k]).binding, all[i].binding) {
        let k = choose|k: int| 0 <= k < j && collide((#[trigger] all[k]).binding, all[i].binding);
        lemma_some_first(all, i, k);
    } else {
        assert(is_first_like(all, i, j));
    }
}

/// What the user is told where the system would not register a shortcut.
pub open spec fn taken_text(label: Seq<char>) -> Seq<char> {
    "Couldn't register the "@ + label
        + " shortcut. Another application is probably already using that key combination — pick a different one."@
}

/// What is reported of the binding at `i`, if anything.
pub open spec fn problem_of(c: Configured, step: ShortcutStep, registered: bool) -> Option<
    (Seq<char>, Seq<char>),
> {
    match step {
        ShortcutStep::Refuse(e) => Some((c.action.slug(), e.text(c.action.slug()))),
        ShortcutStep::Register(_, _) => if registered {
            None
        } else {
            Some((c.action.slug(), taken_text(c.action.slug())))
        },
    }
}

/// What is reported of the first bindings.
pub open spec fn problems_upto(
    all: Seq<Configured>,
    steps: Seq<ShortcutStep>,
    registered: Seq<bool>,
    n: int,
) -> Seq<(Seq<char>, Seq<char>)>
    decreases n,
{
    if n <= 0 {
        Seq::empty()
    } else {
        let before = problems_upto(all, steps, registered, n - 1);
        match problem_of(all[n - 1], steps[n - 1], registered[n - 1]) {
            Some(p) => before.push(p),
            None => before,
        }
    }
}

proof fn lemma_problem_listed(
    all: Seq<Configured>,
    steps: Seq<ShortcutStep>,
    registered: Seq<bool>,
    i: int,
    n: int,
)
    requires
        0 <= i < n,
        problem_of(all[i], steps[i], registered[i]) is Some,
    ensures
        problems_upto(all, steps, registered, n).contains(
            problem_of(all[i], steps[i], registered[i])->0,
        ),
    decreases n,
{
    let p = problem_of(all[i], steps[i], registered[i])->0;
    let now = problems_upto(all, steps, registered, n);
    let before = problems_upto(all, steps, registered, n - 1);
    if i == n - 1 {
        assert(now[now.len() - 1] == p);
    } else {
        lemma_problem_listed(all, steps, registered, i, n - 1);
        let k = choose|k: int| 0 <= k < before.len() && before[k] == p;
        assert(now[k] == p);
    }
}

/// No shortcut fails in silence: a binding that was refused, or that the system did not take, is
/// reported under its action.
pub proof fn law_no_shortcut_fails_in_silence(
    all: Seq<Configured>,
    steps: Seq<ShortcutStep>,
    registered: Seq<bool>,
    i: int,
)
    requires
        0 <= i < all.len(),
        steps[i] is Refuse || !registered[i],
    ensures
        exists|k: int|
            0 <= k < problems_upto(all, steps, registered, all.len() as int).len()
                && (#[trigger] problems_upto(all, steps, registered, all.len() as int)[k]).0
                == all[i].action.slug(),
{
    lemma_problem_listed(all, steps, registered, i, all.len() as int);
    let v = problems_upto(all, steps, registered, all.len() as int);
    let p = problem_of(all[i], steps[i], registered[i])->0;
    let k = choose|k: int| 0 <= k < v.len() && v[k] == p;
    assert(v[k].0 == all[i].action.slug());
}

/// Only what failed is reported: every problem is that of a binding that was refused or not taken.
pub proof fn law_only_failures_are_reported(
    all: Seq<Configured>,
    steps: Seq<ShortcutStep>,
    registered: Seq<bool>,
    n: int,
    k: int,
)
    requires
        0 <= k < problems_upto(all, steps, registered, n).len(),
    ensures
        exists|i: int|
            0 <= i < n && #[trigger] problem_of(all[i], steps[i], registered[i]) == Some(
                problems_upto(all, steps, registered, n)[k],
            ),
    decreases n,
{
    if n > 0 {
        let before = problems_upto(all, steps, registered, n - 1);
        if k < before.len() {
            law_only_failures_are_reported(all, steps, registered, n - 1, k);
        } else {
            assert(problem_of(all[n - 1], steps[n - 1], registered[n - 1]) is Some);
        }
    }
}

proof fn lemma_slugs_differ(a: Action, b: Action)
    ensures
        a.slug() == b.slug() <==> a == b,
{
    reveal_strlit("voice-at-cursor");
    reveal_strlit("log-capture");
    reveal_strlit("action");
    reveal_strlit("edit-selection");
    assert("voice-at-cursor"@.len() == 15 && "log-capture"@.len() == 11 && "action"@.len() == 6
        && "edit-selection"@.len() == 14);
}

/// Problems stand in the order of the actions, one at most for each action: voice at the cursor,
/// then captures, then commands, then edits.
pub proof fn law_problems_are_in_order(
    all: Seq<Configured>,
    steps: Seq<ShortcutStep>,
    registered: Seq<bool>,
    j: int,
    k: int,
)
    requires
        in_order(all),
        0 <= j < k < problems_upto(all, steps, registered, all.len() as int).len(),
    ensures
        exists|a: Action, b: Action|
            a.order() < b.order() && problems_upto(all, steps, registered, all.len() as int)[j].0
                == #[trigger] a.slug() && problems_upto(
                all,
                steps,
                registered,
                all.len() as int,
            )[k].0 == #[trigger] b.slug(),
{
    let (x, y) = lemma_problem_places(all, steps, registered, all.len() as int, j, k);
    let a = all[x].action;
    let b = all[y].action;
    let v = problems_upto(all, steps, registered, all.len() as int);
    assert(v[j].0 == a.slug() && v[k].0 == b.slug());
}

proof fn lemma_problem_places(
    all: Seq<Configured>,
    steps: Seq<ShortcutStep>,
    registered: Seq<bool>,
    n: int,
    j: int,
    k: int,
) -> (r: (int, int))
    requires
        0 <= j < k < problems_upto(all, steps, registered, n).len(),
    ensures
        0 <= r.0 < r.1 < n,
        problem_of(all[r.0], steps[r.0], registered[r.0]) == Some(
            problems_upto(all, steps, registered, n)[j],
        ),
        problem_of(all[r.1], steps[r.1], registered[r.1]) == Some(
            problems_upto(all, steps, registered, n)[k],
        ),
    decreases n,
{
    let before = problems_upto(all, steps, registered, n - 1);
    if k < before.len() {
        lemma_problem_places(all, steps, registered, n - 1, j, k)
    } else {
        law_only_failures_are_reported(all, steps, registered, n - 1, j);
        let i = choose|i: int|
            0 <= i < n - 1 && #[trigger] problem_of(all[i], steps[i], registered[i]) == Some(
                before[j],
            );
        (i, n - 1)
    }
}

/// A problem's message speaks of the action that the problem is reported under.
pub proof fn law_problems_name_their_action(
    all: Seq<Configured>,
    steps: Seq<ShortcutStep>,
    registered: Seq<bool>,
    k: int,
)
    requires
        0 <= k < problems_upto(all, steps, registered, all.len() as int).len(),
    ensures
        ({
            let p = problems_upto(all, steps, registered, all.len() as int)[k];
            occurs_in(p.1, p.0)
        }),
{
    law_only_failures_are_reported(all, steps, registered, all.len() as int, k);
    let p = problems_upto(all, steps, registered, all.len() as int)[k];
    let i = choose|i: int|
        0 <= i < all.len() && #[trigger] problem_of(all[i], steps[i], registered[i]) == Some(p);
    let label = all[i].action.slug();
    let at: int = match steps[i] {
        ShortcutStep::Refuse(_) => "The "@.len() as int,
        ShortcutStep::Register(_, _) => "Couldn't register the "@.len() as int,
    };
    assert(p.1.skip(at).take(label.len() as int) == label);
    assert(begins_with(p.1.skip(at), p.0));
}

// ----- what is live -----

/// A shortcut that the system listens for: the action it starts, the name of its key, and its
/// modifiers.
pub struct Live {
    pub action: Action,
    pub code: Seq<char>,
    pub kinds: Seq<ModifierKind>,
}

/// What a step adds to the live shortcuts, if the system takes it.
pub open spec fn added(c: Configured, step: ShortcutStep, registered: bool) -> Option<Live> {
    match step {
        ShortcutStep::Register(code, kinds) => if registered {
            Some(Live { action: c.action, code: code_name(code), kinds: kinds@ })
        } else {
            None
        },
        ShortcutStep::Refuse(_) => None,
    }
}

/// What is live once everything has been cleared.
pub open spec fn cleared(live: Set<Live>) -> Set<Live> {
    live.difference(live)
}

/// What is live once everything that was live has been cleared and the first `n` steps were taken.
pub open spec fn live_upto(
    before: Set<Live>,
    all: Seq<Configured>,
    steps: Seq<ShortcutStep>,
    registered: Seq<bool>,
    n: int,
) -> Set<Live>
    decreases n,
{
    if n <= 0 {
        cleared(before)
    } else {
        let so_far = live_upto(before, all, steps, registered, n - 1);
        match added(all[n - 1], steps[n - 1], registered[n - 1]) {
            Some(l) => so_far.insert(l),
            None => so_far,
        }
    }
}

/// Whether some live shortcut starts an action.
pub open spec fn starts(live: Set<Live>, action: Action) -> bool {
    exists|l: Live| #[trigger] live.contains(l) && l.action == action
}

/// Whether an action is named in a report.
pub open spec fn is_reported(problems: Seq<(Seq<char>, Seq<char>)>, action: Action) -> bool {
    exists|k: int| 0 <= k < problems.len() && (#[trigger] problems[k]).0 == action.slug()
}

proof fn lemma_live(
    before: Set<Live>,
    all: Seq<Configured>,
    steps: Seq<ShortcutStep>,
    registered: Seq<bool>,
    n: int,
    l: Live,
)
    ensures
        live_upto(before, all, steps, registered, n).contains(l) <==> exists|i: int|
            0 <= i < n && #[trigger] added(all[i], steps[i], registered[i]) == Some(l),
    decreases n,
{
    if n > 0 {
        lemma_live(before, all, steps, registered, n - 1, l);
        let last = added(all[n - 1], steps[n - 1], registered[n - 1]);
        if live_upto(before, all, steps, registered, n).contains(l) && last != Some(l) {
            assert(live_upto(before, all, steps, registered, n - 1).contains(l));
        }
    }
}

/// After a sync the live shortcuts are exactly those of the actions that the report does not name:
/// nothing that was live before is left over, an action is either live or reported, and what is
/// live has the key and the modifiers of the action's binding.
pub proof fn law_live_or_reported(
    before: Set<Live>,
    all: Seq<Configured>,
    steps: Seq<ShortcutStep>,
    registered: Seq<bool>,
)
    requires
        in_order(all),
        steps.len() == all.len(),
        registered.len() == all.len(),
        forall|i: int| 0 <= i < all.len() ==> is_step(all, i, #[trigger] steps[i]),
    ensures
        forall|i: int|
            0 <= i < all.len() ==> (starts(
                live_upto(before, all, steps, registered, all.len() as int),
                (#[trigger] all[i]).action,
            ) <==> !is_reported(
                problems_upto(all, steps, registered, all.len() as int),
                all[i].action,
            )),
        forall|l: Live| #[trigger]
            live_upto(before, all, steps, registered, all.len() as int).contains(l)
                ==> exists|i: int|
                0 <= i < all.len() && (#[trigger] all[i]).action == l.action && code_of(
                    all[i].binding.primary.0,
                ) == Some(l.code) && kinds_of(all[i].binding.modifiers@) == l.kinds,
{
    let n = all.len() as int;
    let live = live_upto(before, all, steps, registered, n);
    let problems = problems_upto(all, steps, registered, n);
    assert forall|l: Live| #[trigger] live.contains(l) implies exists|i: int|
        0 <= i < all.len() && (#[trigger] all[i]).action == l.action && code_of(
            all[i].binding.primary.0,
        ) == Some(l.code) && kinds_of(all[i].binding.modifiers@) == l.kinds by {
        lemma_live(before, all, steps, registered, n, l);
        let i = choose|i: int|
            0 <= i < n && #[trigger] added(all[i], steps[i], registered[i]) == Some(l);
        assert(is_step(all, i, steps[i]));
        assert(all[i].action == l.action);
    }
    assert forall|i: int| 0 <= i < all.len() implies (starts(live, (#[trigger] all[i]).action)
        <==> !is_reported(problems, all[i].action)) by {
        let a = all[i].action;
        match added(all[i], steps[i], registered[i]) {
            Some(l) => {
                lemma_live(before, all, steps, registered, n, l);
                assert(live.contains(l));
                if is_reported(problems, a) {
                    let k = choose|k: int|
                        0 <= k < problems.len() && (#[trigger] problems[k]).0 == a.slug();
                    law_only_failures_are_reported(all, steps, registered, n, k);
                    let m = choose|m: int|
                        0 <= m < n && #[trigger] problem_of(all[m], steps[m], registered[m])
                            == Some(problems[k]);
                    lemma_slugs_differ(all[m].action, a);
                    assert(m == i);
                }
            },
            None => {
                lemma_problem_listed(all, steps, registered, i, n);
                let p = problem_of(all[i], steps[i], registered[i])->0;
                let k = choose|k: int| 0 <= k < problems.len() && problems[k] == p;
                assert(problems[k].0 == a.slug());
                if starts(live, a) {
                    let l = choose|l: Live| #[trigger] live.contains(l) && l.action == a;
                    lemma_live(before, all, steps, registered, n, l);
                    let m = choose|m: int|
                        0 <= m < n && #[trigger] added(all[m], steps[m], registered[m]) == Some(l);
                    assert(all[m].action == a);
                    assert(m == i);
                }
            },
        }
    }
}

/// Whether what was registered is what the system takes, where the plan asks for it.
pub open spec fn as_taken(
    steps: Seq<ShortcutStep>,
    registered: Seq<bool>,
    takes: spec_fn(Seq<char>, Seq<ModifierKind>) -> bool,
) -> bool {
    forall|i: int|
        0 <= i < steps.len() ==> match #[trigger] steps[i] {
            ShortcutStep::Register(code, kinds) => registered[i] == takes(code_name(code), kinds@),
            ShortcutStep::Refuse(_) => true,
        }
}

proof fn lemma_same_step(all: Seq<Configured>, i: int, a: ShortcutStep, b: ShortcutStep)
    requires
        is_step(all, i, a),
        is_step(all, i, b),
    ensures
        match (a, b) {
            (ShortcutStep::Register(c, k), ShortcutStep::Register(d, l)) => code_name(c)
                == code_name(d) && k@ == l@,
            (ShortcutStep::Refuse(e), ShortcutStep::Refuse(f)) => forall|label: Seq<char>|
                #[trigger] e.text(label) == f.text(label),
            _ => false,
        },
{
    if supported(all[i].binding) && exists|j: int| is_first_like(all, i, j) {
        let x = choose|j: int| #[trigger]
            is_first_like(all, i, j) && (a matches ShortcutStep::Refuse(
                UnsupportedBinding::DuplicateOf(other),
            ) && other@ == all[j].action.slug());
        let y = choose|j: int| #[trigger]
            is_first_like(all, i, j) && (b matches ShortcutStep::Refuse(
                UnsupportedBinding::DuplicateOf(other),
            ) && other@ == all[j].action.slug());
        assert(x == y);
    }
}

proof fn lemma_same_sync(
    one: Set<Live>,
    two: Set<Live>,
    all: Seq<Configured>,
    a: Seq<ShortcutStep>,
    b: Seq<ShortcutStep>,
    p: Seq<bool>,
    q: Seq<bool>,
    takes: spec_fn(Seq<char>, Seq<ModifierKind>) -> bool,
    n: int,
)
    requires
        a.len() == all.len() && b.len() == all.len(),
        forall|i: int| 0 <= i < all.len() ==> is_step(all, i, #[trigger] a[i]),
        forall|i: int| 0 <= i < all.len() ==> is_step(all, i, #[trigger] b[i]),
        as_taken(a, p, takes),
        as_taken(b, q, takes),
        n <= all.len(),
    ensures
        live_upto(one, all, a, p, n) == live_upto(two, all, b, q, n),
        problems_upto(all, a, p, n) == problems_upto(all, b, q, n),
    decreases n,
{
    if n > 0 {
        lemma_same_sync(one, two, all, a, b, p, q, takes, n - 1);
        lemma_same_step(all, n - 1, a[n - 1], b[n - 1]);
    } else {
        assert(cleared(one) == cleared(two));
    }
}

/// Syncing twice is syncing once: for the same bindings, and a system that takes the same
/// combinations, what is live and what is reported do not depend on what was live before.
pub proof fn law_sync_can_be_repeated(
    one: Set<Live>,
    two: Set<Live>,
    all: Seq<Configured>,
    a: Seq<ShortcutStep>,
    b: Seq<ShortcutStep>,
    p: Seq<bool>,
    q: Seq<bool>,
    takes: spec_fn(Seq<char>, Seq<ModifierKind>) -> bool,
)
    requires
        a.len() == all.len() && b.len() == all.len(),
        forall|i: int| 0 <= i < all.len() ==> is_step(all, i, #[trigger] a[i]),
        forall|i: int| 0 <= i < all.len() ==> is_step(all, i, #[trigger] b[i]),
        as_taken(a, p, takes),
        as_taken(b, q, takes),
    ensures
        live_upto(one, all, a, p, all.len() as int) == live_upto(
            two,
            all,
            b,
            q,
            all.len() as int,
        ),
        problems_upto(all, a, p, all.len() as int) == problems_upto(all, b, q, all.len() as int),
{
    lemma_same_sync(one, two, all, a, b, p, q, takes, all.len() as int);
}

/// Problems as plain texts.
pub open spec fn problem_texts(v: Seq<HotkeyProblem>) -> Seq<(Seq<char>, Seq<char>)> {
    v.map_values(|p: HotkeyProblem| (p.action@, p.message@))
}

/// One problem for each binding that is not registered, in the order of the bindings. `registered`
/// says of each step whether the system took it.
pub fn hotkey_problems(
    all: &Vec<Configured>,
    steps: &Vec<ShortcutStep>,
    registered: &Vec<bool>,
) -> (r: Vec<HotkeyProblem>)
    requires
        steps@.len() == all@.len(),
        registered@.len() == all@.len(),
    ensures
        problem_texts(r@) == problems_upto(all@, steps@, registered@, all@.len() as int),
{
    let mut out: Vec<HotkeyProblem> = Vec::new();
    let mut i: usize = 0;
    assert(problem_texts(out@) == problems_upto(all@, steps@, registered@, 0));
    while i < all.len()
        invariant
            i <= all@.len() == steps@.len(),
            steps@.len() == registered@.len(),
            problem_texts(out@) == problems_upto(all@, steps@, registered@, i as int),
        decreases all@.len() - i,
    {
        let label = all[i].action.label();
        let message: Option<String> = match &steps[i] {
            ShortcutStep::Refuse(e) => Some(e.message(label)),
            ShortcutStep::Register(_, _) => if registered[i] {
                None
            } else {
                Some(
                    glue3(
                        "Couldn't register the ",
                        label,
                        " shortcut. Another application is probably already using that key combination — pick a different one.",
                    ),
                )
            },
        };
        if let Some(m) = message {
            let ghost was = problem_texts(out@);
            out.push(HotkeyProblem { action: label.to_owned(), message: m });
            assert(problem_texts(out@) == was.push((label@, m@)));
        }
        i = i + 1;
    }
    out
}

/// Every binding that could be read starts its own action and no other.
pub proof fn law_bindings_start_their_own_action(
    voice: Option<Binding>,
    log_capture: Option<Binding>,
    action: Option<Binding>,
    edit_selection: Option<Binding>,
    b: Binding,
)
    ensures
        ({
            let all = configured_with(voice, log_capture, action, edit_selection);
            let listed = |a: Action| all.contains(Configured { action: a, binding: b });
            &&& listed(Action::VoiceAtCursor) <==> voice == Some(b)
            &&& listed(Action::LogCapture) <==> log_capture == Some(b)
            &&& listed(Action::ActionCommand) <==> action == Some(b)
            &&& listed(Action::EditSelection) <==> edit_selection == Some(b)
        }),
{
    let all = configured_with(voice, log_capture, action, edit_selection);
    let one = |o: Option<Binding>|
        if o is Some {
            1int
        } else {
            0
        };
    let i = one(voice);
    let j = i + one(log_capture);
    let k = j + one(action);
    assert(voice is Some ==> all[0] == Configured { action: Action::VoiceAtCursor, binding: voice->0 });
    assert(log_capture is Some ==> all[i] == Configured {
        action: Action::LogCapture,
        binding: log_capture->0,
    });
    assert(action is Some ==> all[j] == Configured {
        action: Action::ActionCommand,
        binding: action->0,
    });
    assert(edit_selection is Some ==> all[k] == Configured {
        action: Action::EditSelection,
        binding: edit_selection->0,
    });
    assert(all.len() == k + one(edit_selection));
}

/// A kind of modifier is held as soon as either of its keys is, whatever else is.
pub proof fn law_either_side_is_held(
    m: Seq<(ModifierKind, ModifierSide)>,
    kind: ModifierKind,
    side: ModifierSide,
    other: ModifierKind,
)
    ensures
        holds(m.push((kind, side)), other) <==> kind == other || holds(m, other),
        !holds(Seq::empty(), kind),
{
    let s = m.push((kind, side));
    if kind == other {
        assert(s[m.len() as int].0 == other);
    }
    if holds(m, other) {
        let i = choose|i: int| 0 <= i < m.len() && (#[trigger] m[i]).0 == other;
        assert(s[i].0 == other);
    }
    if holds(s, other) && kind != other {
        let i = choose|i: int| 0 <= i < s.len() && (#[trigger] s[i]).0 == other;
        assert(m[i].0 == other);
    }
}

/// The actions, as they are called.
pub proof fn law_actions_in_words()
    ensures
        Action::VoiceAtCursor.slug() == seq![
            'v', 'o', 'i', 'c', 'e', '-', 'a', 't', '-', 'c', 'u', 'r', 's', 'o', 'r',
        ],
        Action::LogCapture.slug() == seq!['l', 'o', 'g', '-', 'c', 'a', 'p', 't', 'u', 'r', 'e'],
        Action::ActionCommand.slug() == seq!['a', 'c', 't', 'i', 'o', 'n'],
        Action::EditSelection.slug() == seq![
            'e', 'd', 'i', 't', '-', 's', 'e', 'l', 'e', 'c', 't', 'i', 'o', 'n',
        ],
{
    reveal_strlit("voice-at-cursor");
    assert("voice-at-cursor"@ =~= seq![
        'v', 'o', 'i', 'c', 'e', '-', 'a', 't', '-', 'c', 'u', 'r', 's', 'o', 'r',
    ]);
    reveal_strlit("log-capture");
    assert("log-capture"@ =~= seq!['l', 'o', 'g', '-', 'c', 'a', 'p', 't', 'u', 'r', 'e']);
    reveal_strlit("action");
    assert("action"@ =~= seq!['a', 'c', 't', 'i', 'o', 'n']);
    reveal_strlit("edit-selection");
    assert("edit-selection"@ =~= seq![
        'e', 'd', 'i', 't', '-', 's', 'e', 'l', 'e', 'c', 't', 'i', 'o', 'n',
    ]);
}

/// What the user is told of a shortcut names its action, and the other action where two share one
/// combination; and each reason is told in its own words.
pub proof fn law_problems_are_told_by_their_reason(
    label: Seq<char>,
    u: UnsupportedBinding,
    other: &'static str,
)
    ensures
        occurs_in(u.text(label), label),
        occurs_in(taken_text(label), label),
        u == UnsupportedBinding::DuplicateOf(other) ==> occurs_in(u.text(label), other@),
        occurs_in(UnsupportedBinding::ModifierOnly.text(label), seq![
            ' ', 'i', 's', ' ', 'a', ' ', 's', 'i', 'n', 'g', 'l', 'e', ' ', 'm', 'o', 'd', 'i',
            'f', 'i', 'e', 'r', ' ', 'k', 'e', 'y',
        ]),
        occurs_in(UnsupportedBinding::UnmappableKey.text(label), seq![
            ' ', 'u', 's', 'e', 's', ' ', 'a', ' ', 'k', 'e', 'y', ' ', 'W', 'i', 'n', 'd', 'o',
            'w', 's', ' ', 'c', 'a', 'n', '\'', 't',
        ]),
        occurs_in(taken_text(label), seq![
            ' ', 'A', 'n', 'o', 't', 'h', 'e', 'r', ' ', 'a', 'p', 'p', 'l', 'i', 'c', 'a', 't',
            'i', 'o', 'n',
        ]),
{
    let the = "The "@;
    let modifier =
        " shortcut is a single modifier key. Windows can only register a shortcut that includes a regular key — add a letter, digit or function key to the combination."@;
    let unmapped = " shortcut uses a key Windows can't register. Pick another key."@;
    let same = " shortcut is the same combination as the "@;
    let needs = " shortcut. Windows needs a different combination for each action."@;
    let could = "Couldn't register the "@;
    let taken =
        " shortcut. Another application is probably already using that key combination — pick a different one."@;
    law_occurs_in(the + label + modifier, the, label, modifier);
    law_occurs_in(the + label + unmapped, the, label, unmapped);
    law_occurs_in(could + label + taken, could, label, taken);
    if let UnsupportedBinding::DuplicateOf(o) = u {
        let t = u.text(label);
        assert(t =~= the + label + (same + o@ + needs));
        law_occurs_in(t, the, label, same + o@ + needs);
        law_occurs_in(t, the + label + same, o@, needs);
    }
    lemma_modifier_words(the + label);
    lemma_unmapped_words(the + label);
    lemma_taken_words(could + label);
}

proof fn lemma_modifier_words(front: Seq<char>)
    ensures
        occurs_in(
            front
                + " shortcut is a single modifier key. Windows can only register a shortcut that includes a regular key — add a letter, digit or function key to the combination."@,
            seq![
                ' ', 'i', 's', ' ', 'a', ' ', 's', 'i', 'n', 'g', 'l', 'e', ' ', 'm', 'o', 'd',
                'i', 'f', 'i', 'e', 'r', ' ', 'k', 'e', 'y',
            ],
        ),
{
    let t =
        " shortcut is a single modifier key. Windows can only register a shortcut that includes a regular key — add a letter, digit or function key to the combination."@;
    reveal_strlit(
        " shortcut is a single modifier key. Windows can only register a shortcut that includes a regular key — add a letter, digit or function key to the combination.",
    );
    lemma_words_at(front, t, 9, seq![
        ' ', 'i', 's', ' ', 'a', ' ', 's', 'i', 'n', 'g', 'l', 'e', ' ', 'm', 'o', 'd', 'i', 'f',
        'i', 'e', 'r', ' ', 'k', 'e', 'y',
    ]);
}

proof fn lemma_unmapped_words(front: Seq<char>)
    ensures
        occurs_in(
            front + " shortcut uses a key Windows can't register. Pick another key."@,
            seq![
                ' ', 'u', 's', 'e', 's', ' ', 'a', ' ', 'k', 'e', 'y', ' ', 'W', 'i', 'n', 'd',
                'o', 'w', 's', ' ', 'c', 'a', 'n', '\'', 't',
            ],
        ),
{
    let t = " shortcut uses a key Windows can't register. Pick another key."@;
    reveal_strlit(" shortcut uses a key Windows can't register. Pick another key.");
    lemma_words_at(front, t, 9, seq![
        ' ', 'u', 's', 'e', 's', ' ', 'a', ' ', 'k', 'e', 'y', ' ', 'W', 'i', 'n', 'd', 'o', 'w',
        's', ' ', 'c', 'a', 'n', '\'', 't',
    ]);
}

proof fn lemma_taken_words(front: Seq<char>)
    ensures
        occurs_in(
            front
                + " shortcut. Another application is probably already using that key combination — pick a different one."@,
            seq![
                ' ', 'A', 'n', 'o', 't', 'h', 'e', 'r', ' ', 'a', 'p', 'p', 'l', 'i', 'c', 'a',
                't', 'i', 'o', 'n',
            ],
        ),
{
    let t =
        " shortcut. Another application is probably already using that key combination — pick a different one."@;
    reveal_strlit(
        " shortcut. Another application is probably already using that key combination — pick a different one.",
    );
    lemma_words_at(front, t, 10, seq![
        ' ', 'A', 'n', 'o', 't', 'h', 'e', 'r', ' ', 'a', 'p', 'p', 'l', 'i', 'c', 'a', 't', 'i',
        'o', 'n',
    ]);
}

proof fn lemma_words_at(front: Seq<char>, t: Seq<char>, k: int, words: Seq<char>)
    requires
        0 <= k,
        k + words.len() <= t.len(),
        forall|i: int| 0 <= i < words.len() ==> #[trigger] words[i] == t[k + i],
    ensures
        occurs_in(front + t, words),
{
    let back = t.skip(k + words.len());
    assert(front + t =~= front + t.take(k) + words + back);
    law_occurs_in(front + t, front + t.take(k), words, back);
}

/// A binding is reported exactly where it was refused or could not be registered, under the name of
/// its action and with the reason.
pub proof fn law_reported_where_it_fails(c: Configured, step: ShortcutStep, registered: bool)
    ensures
        problem_of(c, step, registered) is None <==> step is Register && registered,
        problem_of(c, step, registered) matches Some(p) ==> p.0 == c.action.slug(),
        step matches ShortcutStep::Refuse(e) ==> problem_of(c, step, registered) == Some(
            (c.action.slug(), e.text(c.action.slug())),
        ),
        step is Register && !registered ==> problem_of(c, step, registered) == Some(
            (c.action.slug(), taken_text(c.action.slug())),
        ),
{
}

} // verus!
