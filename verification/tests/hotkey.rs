use echotrans::hotkey::{
    char_to_key, clipboard_selection, retry_clipboard, hotkey_setting, parse_hotkey, parse_hotkey_parts,
    text_for_translation, Hotkey, Key, KeyWatcher, Keystroke, Trigger, INVALID_HOTKEY_MESSAGE,
    MAX_CHARS, TRIPLE_WINDOW_NANOS,
};

#[test]
fn parses_supported_hotkeys() {
    assert_eq!(
        parse_hotkey("Ctrl + Shift + S"),
        Some(Hotkey {
            ctrl: true,
            alt: false,
            shift: true,
            key: Key::KeyS,
        })
    );
    assert_eq!(
        parse_hotkey("alt+w"),
        Some(Hotkey {
            ctrl: false,
            alt: true,
            shift: false,
            key: Key::KeyW,
        })
    );
}

#[test]
fn rejects_ambiguous_hotkeys() {
    assert!(parse_hotkey("W").is_none());
    assert!(parse_hotkey("Alt+W+X").is_none());
    assert!(parse_hotkey("Alt+Alt+W").is_none());
    assert!(parse_hotkey("Ctrl+F1").is_none());
}

#[test]
fn parses_control_alias_digits_and_any_order() {
    assert_eq!(
        parse_hotkey("  CONTROL+ 7 "),
        Some(Hotkey { ctrl: true, alt: false, shift: false, key: Key::Num7 })
    );
    assert_eq!(
        parse_hotkey("q+Shift+Alt"),
        Some(Hotkey { ctrl: false, alt: true, shift: true, key: Key::KeyQ })
    );
    assert_eq!(
        parse_hotkey("Ctrl+Alt+Shift+Z"),
        Some(Hotkey { ctrl: true, alt: true, shift: true, key: Key::KeyZ })
    );
}

#[test]
fn rejects_empty_parts_and_missing_key() {
    assert!(parse_hotkey("").is_none());
    assert!(parse_hotkey("Alt+").is_none());
    assert!(parse_hotkey("+W").is_none());
    assert!(parse_hotkey("Ctrl+Shift").is_none());
    assert!(parse_hotkey("Ctrl+Control+W").is_none());
    assert!(parse_hotkey("Alt+é").is_none());
    assert!(parse_hotkey("Alt+ab").is_none());
}

#[test]
fn parses_prepared_parts() {
    let parts = vec!["shift".to_string(), "0".to_string()];
    assert_eq!(
        parse_hotkey_parts(&parts),
        Some(Hotkey { ctrl: false, alt: false, shift: true, key: Key::Num0 })
    );
    let upper = vec!["Shift".to_string(), "0".to_string()];
    assert_eq!(parse_hotkey_parts(&upper), None);
}

#[test]
fn maps_letters_and_digits_to_keys() {
    assert_eq!(char_to_key('a'), Some(Key::KeyA));
    assert_eq!(char_to_key('m'), Some(Key::KeyM));
    assert_eq!(char_to_key('z'), Some(Key::KeyZ));
    assert_eq!(char_to_key('0'), Some(Key::Num0));
    assert_eq!(char_to_key('9'), Some(Key::Num9));
    assert_eq!(char_to_key('A'), None);
    assert_eq!(char_to_key('-'), None);
}

#[test]
fn hotkey_setting_blank_valid_and_invalid() {
    assert_eq!(hotkey_setting("   "), Ok(None));
    assert_eq!(
        hotkey_setting(" Alt+W "),
        Ok(Some(Hotkey { ctrl: false, alt: true, shift: false, key: Key::KeyW }))
    );
    assert_eq!(hotkey_setting("F5"), Err(INVALID_HOTKEY_MESSAGE.to_string()));
}

const MS: u64 = 1_000_000;

#[test]
fn third_quick_ctrl_c_translates() {
    let mut w = KeyWatcher::new(0);
    assert_eq!(w.press(Keystroke::Ctrl, 10 * MS, None), None);
    let c = Keystroke::Char(Key::KeyC);
    assert_eq!(w.press(c, 20 * MS, None), None);
    assert_eq!(w.press(c, 400 * MS, None), None);
    assert_eq!(w.press(c, 1000 * MS, None), Some(Trigger::Translate));
    // the run starts over after a translation
    assert_eq!(w.press(c, 1100 * MS, None), None);
    assert_eq!(w.press(c, 1200 * MS, None), None);
    assert_eq!(w.press(c, 1300 * MS, None), Some(Trigger::Translate));
}

#[test]
fn slow_ctrl_c_starts_over() {
    let mut w = KeyWatcher::new(0);
    let c = Keystroke::Char(Key::KeyC);
    w.press(Keystroke::Ctrl, 0, None);
    assert_eq!(w.press(c, 1000 * MS, None), None);
    assert_eq!(w.press(c, 1500 * MS, None), None);
    // 601 ms after the previous press: a new run of one
    assert_eq!(w.press(c, 2101 * MS, None), None);
    assert_eq!(w.press(c, 2101 * MS + TRIPLE_WINDOW_NANOS, None), None);
    assert_eq!(w.press(c, 2101 * MS + 2 * TRIPLE_WINDOW_NANOS, None), Some(Trigger::Translate));
}

#[test]
fn c_without_ctrl_does_not_count() {
    let mut w = KeyWatcher::new(0);
    let c = Keystroke::Char(Key::KeyC);
    w.press(Keystroke::Ctrl, 0, None);
    assert_eq!(w.press(c, 1 * MS, None), None);
    assert_eq!(w.press(c, 2 * MS, None), None);
    w.release(Keystroke::Ctrl);
    assert_eq!(w.press(c, 3 * MS, None), None);
    w.press(Keystroke::Ctrl, 4 * MS, None);
    assert_eq!(w.press(c, 5 * MS, None), Some(Trigger::Translate));
}

#[test]
fn screenshot_hotkey_needs_exact_modifiers() {
    let hk = Some(Hotkey { ctrl: false, alt: true, shift: false, key: Key::KeyW });
    let mut w = KeyWatcher::new(0);
    let key_w = Keystroke::Char(Key::KeyW);
    assert_eq!(w.press(key_w, 1, hk), None);
    assert_eq!(w.press(Keystroke::Alt, 2, hk), None);
    assert_eq!(w.press(key_w, 3, hk), Some(Trigger::Snip));
    w.press(Keystroke::Shift, 4, hk);
    assert_eq!(w.press(key_w, 5, hk), None);
    w.release(Keystroke::Shift);
    assert_eq!(w.press(key_w, 6, hk), Some(Trigger::Snip));
    assert_eq!(w.press(key_w, 7, None), None);
    assert_eq!(w.press(Keystroke::Other, 8, hk), None);
}

#[test]
fn ctrl_c_hotkey_is_taken_by_the_copy_run() {
    let hk = Some(Hotkey { ctrl: true, alt: false, shift: false, key: Key::KeyC });
    let mut w = KeyWatcher::new(0);
    w.press(Keystroke::Ctrl, 0, hk);
    assert_eq!(w.press(Keystroke::Char(Key::KeyC), 1, hk), None);
}

#[test]
fn clipboard_text_is_trimmed() {
    assert_eq!(clipboard_selection("  hello \n"), Some("hello".to_string()));
    assert_eq!(clipboard_selection(" \t\n "), None);
    assert_eq!(clipboard_selection(""), None);
}

#[test]
fn long_text_is_cut_to_the_limit() {
    let long: String = "字".repeat(MAX_CHARS + 10);
    let cut = text_for_translation(&long).unwrap();
    assert_eq!(cut.chars().count(), MAX_CHARS);
    assert_eq!(text_for_translation("short"), Some("short".to_string()));
    assert_eq!(text_for_translation("   "), None);
    let blank_head = format!("{}x", " ".repeat(MAX_CHARS));
    assert_eq!(text_for_translation(&blank_head), None);
}

#[test]
fn clipboard_is_tried_three_times() {
    assert!(retry_clipboard(0));
    assert!(retry_clipboard(1));
    assert!(!retry_clipboard(2));
    assert!(!retry_clipboard(7));
}

#[test]
fn hotkey_parts_in_any_order_case_and_padding() {
    let want = Some(Hotkey { ctrl: true, alt: false, shift: true, key: Key::KeyS });
    for s in ["Ctrl+Shift+S", "s+SHIFT+control", "\u{3000}sHiFt\t+ s +\u{a0}CtRl ", "S + Control + Shift"] {
        assert_eq!(parse_hotkey(s), want, "{s:?}");
    }
}
