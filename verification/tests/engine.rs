use presguel::engine::{
    IBusEngine, KeyClass, Layout, Shortcut, CONTROL_MASK, KEY_BACKSPACE, RELEASE_MASK,
};

// The minimal layout: VK_HANGUL and VK_CAPITAL as IME_SWITCH, VK_HANJA as KEYCHAR.
fn mini_layout() -> Layout {
    let sc = |key: &str, usage: &str| Shortcut { key: key.to_string(), usage: usage.to_string() };
    Layout {
        shortcuts: vec![
            sc("VK_HANGUL", "IME_SWITCH"),
            sc("VK_CAPITAL", "IME_SWITCH"),
            sc("VK_HANJA", "KEYCHAR"),
        ],
    }
}

fn engine() -> IBusEngine {
    IBusEngine::new(mini_layout())
}

#[test]
fn capslock_in_switch_set() {
    let e = engine();
    // VK_CAPITAL → Caps_Lock(0xffe5), VK_HANGUL → 0xff31
    assert!(e.ime_switch.contains(&0xffe5));
    assert!(e.ime_switch.contains(&0xff31));
    // VK_HANJA is KEYCHAR, so not in the switch set.
    assert!(!e.ime_switch.contains(&0xff34));
}

#[test]
fn shift_is_modifier_not_function_key() {
    let e = engine();
    // Shift must pass through (Modifier), not commit the composition (FunctionKey).
    assert_eq!(e.classify(0xffe1, 0), KeyClass::Modifier); // Shift_L
    assert_eq!(e.classify(0xffe2, 0), KeyClass::Modifier); // Shift_R
}

#[test]
fn capslock_classifies_as_ime_switch_even_on_release() {
    let e = engine();
    assert_eq!(e.classify(0xffe5, 0), KeyClass::ImeSwitch);
    assert_eq!(e.classify(0xffe5, RELEASE_MASK), KeyClass::ImeSwitch);
}

#[test]
fn hangul_key_is_ime_switch() {
    assert_eq!(engine().classify(0xff31, 0), KeyClass::ImeSwitch);
}

#[test]
fn at_key_with_shift_is_printable() {
    // Shift+2 arrives as keyval 0x40('@') with SHIFT state → printable, so it can make ㄺ.
    assert_eq!(engine().classify(0x40, 1 /*SHIFT*/), KeyClass::Printable(0x40));
}

#[test]
fn ctrl_combo_is_shortcut() {
    assert_eq!(engine().classify(b'c' as u32, CONTROL_MASK), KeyClass::ShortcutCombo);
}

#[test]
fn release_of_normal_key_ignored() {
    assert_eq!(engine().classify(b'k' as u32, RELEASE_MASK), KeyClass::Release);
}

#[test]
fn backspace_classified() {
    assert_eq!(engine().classify(KEY_BACKSPACE, 0), KeyClass::Backspace);
}
