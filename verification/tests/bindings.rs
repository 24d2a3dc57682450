use echo_scribe::binding::{key_from_code, Binding, BindingConversionError, JsBinding, JsModifier};
use echo_scribe::binding::{code_from_key, is_modifier, Key, ModifierKind, ModifierSide, SerKey};
use echo_scribe::trigger::{code_for, configured, hotkey_problems, plan_shortcuts, shortcut_parts};
use echo_scribe::trigger::{shortcut_state_to_hotkey, Action, Code, HotkeyEvent, ShortcutStep};
use echo_scribe::trigger::{modifier_rank, UnsupportedBinding};

#[test]
fn key_from_code_handles_known_and_unknown_codes() {
    assert_eq!(key_from_code("ControlRight"), Some(Key::ControlRight));
    assert_eq!(key_from_code("KeyA"), Some(Key::KeyA));
    assert_eq!(key_from_code("Digit0"), Some(Key::Num0));
    assert_eq!(key_from_code("F12"), Some(Key::F12));
    assert_eq!(key_from_code("AltLeft"), Some(Key::Alt));
    assert_eq!(key_from_code("AltRight"), Some(Key::AltGr));
    assert_eq!(key_from_code("Enter"), Some(Key::Return));
    assert_eq!(key_from_code(""), None);
    assert_eq!(key_from_code("NotARealCode"), None);
    assert_eq!(key_from_code("F30"), None);
}

#[test]
fn js_binding_round_trips_through_binding() {
    let single = Binding::single(Key::ControlRight);
    let js: JsBinding = JsBinding::from(single.clone());
    assert_eq!(js.primary, "ControlRight");
    assert!(js.modifiers.is_empty());
    let back: Binding = Binding::try_from(js).expect("should convert back");
    assert_eq!(back, single);

    let combo = Binding {
        primary: SerKey(Key::KeyL),
        modifiers: vec![(ModifierKind::Meta, ModifierSide::Right)],
    };
    let js: JsBinding = JsBinding::from(combo.clone());
    assert_eq!(js.primary, "KeyL");
    assert_eq!(js.modifiers.len(), 1);
    assert_eq!(js.modifiers[0].kind, "Meta");
    assert_eq!(js.modifiers[0].side, "Right");
    let back: Binding = Binding::try_from(js).expect("should convert back");
    assert_eq!(back, combo);
}

#[test]
fn js_binding_rejects_unknown_key() {
    let js = JsBinding { primary: "BogusCode".to_string(), modifiers: vec![] };
    let err = Binding::try_from(js).unwrap_err();
    assert!(matches!(err, BindingConversionError::UnknownKey(_)));
}

#[test]
fn js_binding_rejects_unknown_modifiers() {
    let with = |kind: &str, side: &str| JsBinding {
        primary: "KeyA".to_string(),
        modifiers: vec![JsModifier { kind: kind.to_string(), side: side.to_string() }],
    };
    let err = Binding::try_from(with("Hyper", "Left")).unwrap_err();
    assert_eq!(err, BindingConversionError::UnknownModifierKind("Hyper".to_string()));
    let err = Binding::try_from(with("Meta", "Middle")).unwrap_err();
    assert_eq!(err, BindingConversionError::UnknownModifierSide("Middle".to_string()));
    assert_eq!(err.message(), "unknown modifier side: Middle");
    assert_eq!(
        BindingConversionError::UnknownKey("K".to_string()).message(),
        "unknown key code: K"
    );
    assert_eq!(
        BindingConversionError::UnknownModifierKind("H".to_string()).message(),
        "unknown modifier kind: H"
    );
    assert!(Binding::try_from(with("Meta", "Either")).is_ok());
}

#[test]
fn codes_read_back() {
    for k in [Key::KeyZ, Key::Num9, Key::Dot, Key::BackQuote, Key::MetaRight, Key::F12] {
        let code = code_from_key(k).unwrap();
        assert_eq!(key_from_code(code), Some(k));
    }
    assert_eq!(code_from_key(Key::Unknown(3)), None);
    assert!(is_modifier(Key::AltGr));
    assert!(!is_modifier(Key::F8));
}

#[test]
fn maps_pressed_and_released() {
    assert_eq!(shortcut_state_to_hotkey(true), HotkeyEvent::Pressed);
    assert_eq!(shortcut_state_to_hotkey(false), HotkeyEvent::Released);
}

#[test]
fn combo_splits_into_code_and_modifiers() {
    let b = Binding {
        primary: SerKey(Key::Slash),
        modifiers: vec![(ModifierKind::Alt, ModifierSide::Right)],
    };
    let (code, kinds) = shortcut_parts(&b).expect("combo should be supported");
    assert_eq!(code, "Slash");
    assert_eq!(kinds, vec![ModifierKind::Alt]);
}

#[test]
fn duplicate_modifier_kinds_collapse() {
    let b = Binding {
        primary: SerKey(Key::KeyK),
        modifiers: vec![
            (ModifierKind::Control, ModifierSide::Left),
            (ModifierKind::Control, ModifierSide::Right),
        ],
    };
    let (_, kinds) = shortcut_parts(&b).expect("supported");
    assert_eq!(kinds, vec![ModifierKind::Control]);
}

#[test]
fn bare_modifier_primary_is_unsupported() {
    assert_eq!(
        shortcut_parts(&Binding::single(Key::ControlRight)),
        Err(UnsupportedBinding::ModifierOnly)
    );
    assert_eq!(
        shortcut_parts(&Binding::single(Key::AltGr)),
        Err(UnsupportedBinding::ModifierOnly)
    );
}

#[test]
fn single_non_modifier_key_is_supported() {
    let (code, kinds) = shortcut_parts(&Binding::single(Key::F8)).expect("supported");
    assert_eq!(code, "F8");
    assert!(kinds.is_empty());
}

#[test]
fn modifier_order_is_canonical() {
    let ctrl_shift = Binding {
        primary: SerKey(Key::KeyD),
        modifiers: vec![
            (ModifierKind::Shift, ModifierSide::Either),
            (ModifierKind::Control, ModifierSide::Either),
        ],
    };
    let shift_ctrl = Binding {
        primary: SerKey(Key::KeyD),
        modifiers: vec![
            (ModifierKind::Control, ModifierSide::Either),
            (ModifierKind::Shift, ModifierSide::Either),
        ],
    };
    assert_eq!(shortcut_parts(&ctrl_shift).unwrap(), shortcut_parts(&shift_ctrl).unwrap());
}

#[test]
fn duplicate_message_names_the_conflicting_action() {
    let msg = UnsupportedBinding::DuplicateOf("log-capture").message("voice-at-cursor");
    assert!(msg.contains("log-capture"), "got {msg}");
    assert!(msg.contains("voice-at-cursor"), "got {msg}");
}

#[test]
fn messages_name_the_action() {
    let msg = UnsupportedBinding::ModifierOnly.message("voice-at-cursor");
    assert!(msg.contains("voice-at-cursor"), "got {msg}");
}

#[test]
fn codes_register() {
    assert_eq!(code_for("Slash"), Some(Code::Slash));
    assert_eq!(code_for("Digit7"), Some(Code::Digit7));
    assert_eq!(code_for("ControlRight"), None);
    assert!(modifier_rank(ModifierKind::Control) != modifier_rank(ModifierKind::Shift));
}

#[test]
fn the_same_shortcut_is_registered_once() {
    let combo = || Binding {
        primary: SerKey(Key::KeyD),
        modifiers: vec![(ModifierKind::Control, ModifierSide::Left)],
    };
    let all = configured(
        Some(combo()),
        Some(combo()),
        Some(Binding::single(Key::ControlRight)),
        Some(Binding::single(Key::F8)),
    );
    assert_eq!(all.len(), 4);
    let steps = plan_shortcuts(&all);
    assert!(matches!(&steps[0], ShortcutStep::Register(Code::KeyD, k) if k.len() == 1));
    assert!(matches!(
        &steps[1],
        ShortcutStep::Refuse(UnsupportedBinding::DuplicateOf("voice-at-cursor"))
    ));
    assert!(matches!(&steps[2], ShortcutStep::Refuse(UnsupportedBinding::ModifierOnly)));
    assert!(matches!(&steps[3], ShortcutStep::Register(Code::F8, _)));
    let taken = hotkey_problems(&all, &steps, &vec![false, false, false, true]);
    assert_eq!(taken.len(), 3);
    assert_eq!(
        taken[0].message,
        "Couldn't register the voice-at-cursor shortcut. Another application is probably already \
         using that key combination — pick a different one."
    );
    let problems = hotkey_problems(&all, &steps, &vec![true, false, false, true]);
    let actions: Vec<&str> = problems.iter().map(|p| p.action.as_str()).collect();
    assert_eq!(actions, vec![Action::LogCapture.label(), Action::ActionCommand.label()]);
}

/// Plans and registers the shortcuts with a system that takes all combinations but those of `taken`.
fn sync(
    live: &mut Vec<(Action, Code, Vec<ModifierKind>)>,
    bindings: [Option<Binding>; 4],
    taken: Code,
) -> Vec<(String, String)> {
    live.clear();
    let [voice, log, action, edit] = bindings;
    let all = configured(voice, log, action, edit);
    let steps = plan_shortcuts(&all);
    let mut registered = Vec::new();
    for (step, wanted) in steps.iter().zip(&all) {
        registered.push(match step {
            ShortcutStep::Register(code, kinds) if *code != taken => {
                live.push((wanted.action, *code, kinds.clone()));
                true
            }
            _ => false,
        });
    }
    hotkey_problems(&all, &steps, &registered).into_iter().map(|p| (p.action, p.message)).collect()
}

#[test]
fn actions_are_live_or_reported() {
    let bindings = || {
        [
            Some(Binding::single(Key::F8)),
            Some(Binding::single(Key::F9)),
            Some(Binding::single(Key::F8)),
            Some(Binding::single(Key::KeyQ)),
        ]
    };
    let mut live = vec![(Action::EditSelection, Code::F1, vec![])];
    let problems = sync(&mut live, bindings(), Code::F9);
    assert_eq!(
        live,
        vec![(Action::VoiceAtCursor, Code::F8, vec![]), (Action::EditSelection, Code::KeyQ, vec![])]
    );
    let named: Vec<&str> = problems.iter().map(|p| p.0.as_str()).collect();
    assert_eq!(named, vec!["log-capture", "action"]);
    assert!(problems.iter().all(|(action, message)| message.contains(action.as_str())));
    // Again, from what is live now: nothing changes.
    let was = live.clone();
    assert_eq!(sync(&mut live, bindings(), Code::F9), problems);
    assert_eq!(live, was);
}
