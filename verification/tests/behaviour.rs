use presguel::addr::{bus_file_name, env_address, parse_address_file, parse_x_display, select_host_and_display};
use presguel::engine::{
    vk_to_keysyms, IBusEngine, KeyAction, KeyClass, Layout, Shortcut, KEY_BACKSPACE, KEY_HANGUL,
    LOCK_MASK, RELEASE_MASK,
};
use presguel::ibus_text::{preedit_attributes, preedit_cursor, TextAttribute, IBUS_ATTR_TYPE_UNDERLINE, IBUS_ATTR_UNDERLINE_SINGLE};
use presguel::jamo::{CHO, JONG, JUNG};
use presguel::unit::{
    category_of_codepoint, cho_to_jong, jong_to_cho, parse_int, resolve_mnemonic,
    resolve_numeric, resolve_operand, Category, Jamo, Unit,
};

#[test]
fn initial_final_conversion() {
    assert_eq!(cho_to_jong(0x1100), Some(0x11A8));
    assert_eq!(jong_to_cho(0x11BC), Some(0x110B));
    // ㄸ has no final form, ㄳ no initial form
    assert_eq!(cho_to_jong(0x1104), None);
    assert_eq!(jong_to_cho(0x11AA), None);
    // not modern jamo at all
    assert_eq!(cho_to_jong(0x114C), None);
    assert_eq!(jong_to_cho(0x1100), None);
}

#[test]
fn initial_final_roundtrip_all() {
    for &c in CHO.iter() {
        if let Some(f) = cho_to_jong(c) {
            assert_eq!(jong_to_cho(f), Some(c));
        }
    }
    for &f in JONG.iter().skip(1) {
        if let Some(c) = jong_to_cho(f) {
            assert_eq!(cho_to_jong(c), Some(f));
        }
    }
}

#[test]
fn default_compat_leads_back() {
    for &c in CHO.iter() {
        let compat = Jamo::new(Category::Cho, c).default_compat().unwrap();
        assert!(compat >= 0x3131);
    }
    for &v in JUNG.iter() {
        assert!(Jamo::new(Category::Jung, v).default_compat().is_some());
    }
    assert_eq!(Jamo::new(Category::Cho, 0x114C).default_compat(), None);
    assert_eq!(Jamo::new(Category::Jong, 0x11C3).default_compat(), None);
    assert_eq!(Jamo::new(Category::Jung, 0x1100).default_compat(), None);
}

#[test]
fn mnemonic_edges() {
    assert_eq!(resolve_mnemonic("", None), None);
    assert_eq!(resolve_mnemonic("_", None), None);
    assert_eq!(resolve_mnemonic("XYZ", None), None);
    // ㄳ exists only as a final
    assert_eq!(resolve_mnemonic("GS", None), None);
    assert_eq!(
        resolve_mnemonic("_GS", None),
        Some(Unit::Jamo(Jamo::new(Category::Jong, 0x11AA)))
    );
    // a vowel cannot be forced into initial position
    assert_eq!(resolve_mnemonic("A_", Some(Category::Cho)), None);
    // the alternative spellings
    assert_eq!(resolve_mnemonic("L_", None), resolve_mnemonic("R_", None));
    assert_eq!(resolve_mnemonic("NG", None), resolve_mnemonic("Q", None));
    // bare consonant is an initial
    assert_eq!(
        resolve_mnemonic("H", None),
        Some(Unit::Jamo(Jamo::new(Category::Cho, 0x1112)))
    );
}

#[test]
fn parse_int_cases() {
    assert_eq!(parse_int(" 0x1F4 "), Some(500));
    assert_eq!(parse_int("0X10"), Some(16));
    assert_eq!(parse_int("0xff"), Some(255));
    assert_eq!(parse_int("+12"), Some(12));
    assert_eq!(parse_int("0x+1F"), Some(31));
    assert_eq!(parse_int("4294967295"), Some(u32::MAX));
    assert_eq!(parse_int("0xFFFFFFFF"), Some(u32::MAX));
    assert_eq!(parse_int("4294967296"), None);
    assert_eq!(parse_int("0x100000000"), None);
    assert_eq!(parse_int("0x"), None);
    assert_eq!(parse_int("+"), None);
    assert_eq!(parse_int("-1"), None);
    assert_eq!(parse_int("12a"), None);
    assert_eq!(parse_int(""), None);
    assert_eq!(parse_int("\t7\n"), Some(7));
    assert_eq!(parse_int("00042"), Some(42));
}

#[test]
fn numeric_units() {
    assert_eq!(resolve_numeric(0), None);
    assert_eq!(resolve_numeric(0x10000), Some(Unit::Virtual(1)));
    assert_eq!(resolve_numeric(0xFFFF0000), Some(Unit::Virtual(0xFFFF)));
    assert_eq!(
        resolve_numeric(0x11A8),
        Some(Unit::Jamo(Jamo::new(Category::Jong, 0x11A8)))
    );
    assert_eq!(resolve_numeric(0x3131), None);
    assert_eq!(resolve_operand("  O_ ", None), Some(Unit::Jamo(Jamo::new(Category::Jung, 0x1169))));
    assert_eq!(resolve_operand("0x1100", Some(Category::Jong)), Some(Unit::Jamo(Jamo::new(Category::Cho, 0x1100))));
}

#[test]
fn codepoint_category_edges() {
    assert_eq!(category_of_codepoint(0x115F), Some(Category::Cho));
    assert_eq!(category_of_codepoint(0x1160), Some(Category::Jung));
    assert_eq!(category_of_codepoint(0x11A7), Some(Category::Jung));
    assert_eq!(category_of_codepoint(0x11A8), Some(Category::Jong));
    assert_eq!(category_of_codepoint(0xA97F), Some(Category::Cho));
    assert_eq!(category_of_codepoint(0xD7CA), Some(Category::Jung));
    assert_eq!(category_of_codepoint(0xD7CB), Some(Category::Jong));
    assert_eq!(category_of_codepoint(0x1200), None);
    assert_eq!(category_of_codepoint(0x10FF), None);
}

#[test]
fn address_file_variants() {
    assert_eq!(parse_address_file("  IBUS_ADDRESS= abc  ").as_deref(), Some("abc"));
    assert_eq!(parse_address_file("IBUS_ADDRESS=\nIBUS_ADDRESS=x"), Some("x".to_string()));
    assert_eq!(parse_address_file("#IBUS_ADDRESS=x\n"), None);
    assert_eq!(parse_address_file("IBUS_ADDRESS=a\r\nIBUS_ADDRESS=b\r\n").as_deref(), Some("a"));
    assert_eq!(parse_address_file(""), None);
    assert_eq!(parse_address_file("ibus_address=x"), None);
}

#[test]
fn x_display_edges() {
    assert_eq!(parse_x_display("localhost"), ("unix".to_string(), "localhost".to_string()));
    assert_eq!(parse_x_display(""), ("unix".to_string(), "".to_string()));
    assert_eq!(parse_x_display("h:1.2.3"), ("h".to_string(), "1".to_string()));
}

#[test]
fn host_and_display_selection() {
    assert_eq!(
        select_host_and_display(Some("wayland-0"), Some(":1")),
        ("unix".to_string(), "wayland-0".to_string())
    );
    assert_eq!(
        select_host_and_display(Some(""), Some("h:2.0")),
        ("h".to_string(), "2".to_string())
    );
    assert_eq!(select_host_and_display(None, None), ("unix".to_string(), "".to_string()));
    assert_eq!(bus_file_name("abc", "unix", "wayland-0"), "abc-unix-wayland-0");
    assert_eq!(env_address(Some("unix:path=/x")), Some("unix:path=/x".to_string()));
    assert_eq!(env_address(Some("")), None);
    assert_eq!(env_address(None), None);
}

fn layout() -> Layout {
    Layout {
        shortcuts: vec![
            Shortcut { key: "VK_RMENU".to_string(), usage: "IME_SWITCH".to_string() },
            Shortcut { key: "VK_UNKNOWN".to_string(), usage: "IME_SWITCH".to_string() },
            Shortcut { key: "VK_RCONTROL".to_string(), usage: "KEYCHAR".to_string() },
        ],
    }
}

#[test]
fn switch_keys_from_layout() {
    let e = IBusEngine::new(layout());
    assert!(e.hangul);
    assert!(e.is_ime_switch(KEY_HANGUL));
    assert!(e.is_ime_switch(0xffea));
    assert!(!e.is_ime_switch(0xffe4));
    assert_eq!(e.ime_switch.len(), 2);
    assert_eq!(vk_to_keysyms("VK_SPACE"), vec![0x20]);
    assert_eq!(vk_to_keysyms("VK_HANJA"), vec![0xff34]);
    assert!(vk_to_keysyms("VK_X").is_empty());
}

#[test]
fn key_routing() {
    let mut e = IBusEngine::new(layout());
    // printable key in Hangul mode goes to the composer, with Caps Lock state
    assert_eq!(e.process_key_event(0x6b, 0, false), KeyAction::Press(0x6b, false));
    assert_eq!(e.process_key_event(0x6b, LOCK_MASK, true), KeyAction::Press(0x6b, true));
    // backspace edits a composition, else passes
    assert_eq!(e.process_key_event(KEY_BACKSPACE, 0, true), KeyAction::Backspace);
    assert_eq!(e.process_key_event(KEY_BACKSPACE, 0, false), KeyAction::PassThrough);
    // function key commits, then passes
    assert_eq!(e.process_key_event(0xff0d, 0, true), KeyAction::CommitAndPass);
    // release of the switch key is swallowed and keeps the mode
    assert_eq!(e.process_key_event(KEY_HANGUL, RELEASE_MASK, true), KeyAction::Swallow);
    assert!(e.hangul);
    // press switches to Latin mode
    assert_eq!(e.process_key_event(KEY_HANGUL, 0, true), KeyAction::SwitchMode);
    assert!(!e.hangul);
    assert_eq!(e.process_key_event(0x6b, 0, false), KeyAction::PassThrough);
    assert_eq!(e.process_key_event(KEY_BACKSPACE, 0, true), KeyAction::PassThrough);
    assert_eq!(e.process_key_event(0xff0d, 0, false), KeyAction::PassThrough);
    // shortcut combos commit in both modes
    assert_eq!(e.process_key_event(0x63, 1 << 2, false), KeyAction::CommitAndPass);
    // second press switches back
    assert_eq!(e.process_key_event(0xffea, 0, false), KeyAction::SwitchMode);
    assert!(e.hangul);
    assert_eq!(e.classify(0xffe1, 0), KeyClass::Modifier);
    assert_eq!(e.process_key_event(0xffe1, 0, true), KeyAction::PassThrough);
    assert_eq!(e.classify(0x20, 0), KeyClass::Printable(0x20));
    assert_eq!(e.classify(0x7f, 0), KeyClass::FunctionKey);
}

#[test]
fn preedit_attribute_list() {
    assert_eq!(
        preedit_attributes("가나"),
        vec![TextAttribute {
            attr_type: IBUS_ATTR_TYPE_UNDERLINE,
            value: IBUS_ATTR_UNDERLINE_SINGLE,
            start: 0,
            end: 2
        }]
    );
    assert!(preedit_attributes("").is_empty());
    assert_eq!(preedit_cursor("한글 ok"), 5);
    assert_eq!(preedit_cursor(""), 0);
}

#[test]
fn parse_int_reads_formatting() {
    let mut n: u32 = 0;
    loop {
        assert_eq!(parse_int(&n.to_string()), Some(n));
        assert_eq!(parse_int(&format!("{:#x}", n)), Some(n));
        assert_eq!(parse_int(&format!(" 0X{:X} ", n)), Some(n));
        assert_eq!(parse_int(&format!("\t0x{:X}\n", n)), Some(n));
        if n > u32::MAX / 7 {
            break;
        }
        n = n * 7 + 3;
    }
    assert_eq!(parse_int(&u32::MAX.to_string()), Some(u32::MAX));
    assert_eq!(parse_int(&format!("{:#x}", u32::MAX)), Some(u32::MAX));
}

#[test]
fn mnemonic_case_and_underscores() {
    assert_eq!(resolve_mnemonic("g", None), None);
    assert_eq!(resolve_mnemonic("g_", None), None);
    assert_eq!(resolve_mnemonic("G__", None), None);
    assert_eq!(resolve_mnemonic("_G_", None), None);
    // every compatibility vowel has a mnemonic
    for (m, cp) in [("A", 0x1161), ("EUI", 0x1174), ("I", 0x1175), ("YAE", 0x1164), ("UEO", 0x116F)] {
        assert_eq!(resolve_mnemonic(m, None), Some(Unit::Jamo(Jamo::new(Category::Jung, cp))));
    }
}
