use penswitcher::hotkeys::{
    find_matching_sequence, is_modifier, key_match, parse_key, HotkeySequence, Key, KeyListener,
};

fn parse(hotkey: &str) -> Result<HotkeySequence, String> {
    HotkeySequence::from_hotkey_string("item", hotkey)
}

#[test]
fn key_names_and_aliases() {
    assert_eq!(parse_key("Ctrl"), Some(Key::ControlLeft));
    assert_eq!(parse_key("Control"), Some(Key::ControlLeft));
    assert_eq!(parse_key("ControlRight"), Some(Key::ControlRight));
    assert_eq!(parse_key("AltGr"), Some(Key::AltGr));
    assert_eq!(parse_key("Win"), Some(Key::MetaLeft));
    assert_eq!(parse_key("K"), Some(Key::KeyK));
    assert_eq!(parse_key("KeyZ"), Some(Key::KeyZ));
    assert_eq!(parse_key("7"), Some(Key::Num7));
    assert_eq!(parse_key("Numpad5"), Some(Key::Num5));
    assert_eq!(parse_key("F12"), Some(Key::F12));
    assert_eq!(parse_key("Esc"), Some(Key::Escape));
    assert_eq!(parse_key("Return"), Some(Key::Return));
    assert_eq!(parse_key("Up"), Some(Key::UpArrow));
    assert_eq!(parse_key("\\"), Some(Key::BackSlash));
    assert_eq!(parse_key("."), Some(Key::Dot));
    assert_eq!(parse_key("NumpadDelete"), Some(Key::KpDelete));
    assert_eq!(parse_key("NumpadEnter"), Some(Key::KpReturn));
    assert_eq!(parse_key("ctrl"), None);
    assert_eq!(parse_key(""), None);
    assert_eq!(parse_key("F13"), None);
}

#[test]
fn modifiers_are_control_shift_alt_and_meta() {
    for k in [Key::ControlLeft, Key::ControlRight, Key::ShiftLeft, Key::ShiftRight, Key::Alt, Key::AltGr, Key::MetaLeft, Key::MetaRight] {
        assert!(is_modifier(&k));
    }
    for k in [Key::KeyA, Key::Space, Key::F1, Key::Other] {
        assert!(!is_modifier(&k));
    }
}

#[test]
fn left_and_right_control_and_shift_match() {
    assert!(key_match(&Key::ControlLeft, &Key::ControlRight));
    assert!(key_match(&Key::ShiftRight, &Key::ShiftLeft));
    assert!(key_match(&Key::KeyA, &Key::KeyA));
    assert!(!key_match(&Key::Alt, &Key::AltGr));
    assert!(!key_match(&Key::MetaLeft, &Key::MetaRight));
}

#[test]
fn hotkey_string_with_two_modifiers() {
    let seq = parse("Ctrl+Shift+K").unwrap();
    assert_eq!(seq.item_id, "item");
    assert_eq!(seq.modifiers, vec![Key::ControlLeft, Key::ShiftLeft]);
    assert_eq!(seq.keys, vec![Key::KeyK]);
}

#[test]
fn hotkey_string_with_key_sequence_and_spaces() {
    let seq = parse(" Ctrl + + 1 + 2 ").unwrap();
    assert_eq!(seq.modifiers, vec![Key::ControlLeft]);
    assert_eq!(seq.keys, vec![Key::Num1, Key::Num2]);
}

#[test]
fn repeated_modifiers_are_kept_once() {
    let seq = parse("Ctrl+A+Control+Shift").unwrap();
    assert_eq!(seq.modifiers, vec![Key::ControlLeft, Key::ShiftLeft]);
    assert_eq!(seq.keys, vec![Key::KeyA]);
}

#[test]
fn empty_hotkey_is_refused() {
    assert_eq!(parse("").unwrap_err(), "空快捷键");
    assert_eq!(parse(" + + ").unwrap_err(), "空快捷键");
}

#[test]
fn unknown_key_name_is_refused_with_the_first_unknown_name() {
    assert_eq!(parse("Ctrl+Foo+Bar").unwrap_err(), "无法解析按键: Foo");
    assert_eq!(parse("Ctrl+ Foo ").unwrap_err(), "无法解析按键: Foo");
}

#[test]
fn hotkey_needs_a_key() {
    assert_eq!(parse("Ctrl+Shift").unwrap_err(), "快捷键需要至少一个非修饰键");
}

#[test]
fn hotkey_needs_a_modifier() {
    assert_eq!(parse("A+B").unwrap_err(), "快捷键需要至少一个修饰键(Ctrl/Alt/Shift/Win)");
}

#[test]
fn listener_collects_a_chord_until_the_last_modifier_goes_up() {
    let mut l = KeyListener::new();
    l.on_key_press(Key::ControlLeft);
    l.on_key_press(Key::Num1);
    l.on_key_press(Key::Num2);
    l.on_key_press(Key::ShiftLeft);
    assert_eq!(l.on_key_release(Key::Num2), None);
    assert_eq!(l.on_key_release(Key::ShiftLeft), None);
    assert_eq!(l.on_key_release(Key::ControlLeft), Some((vec![Key::ControlLeft], vec![Key::Num1, Key::Num2])));
    assert!(l.active_modifiers.is_empty() && l.sequence_modifiers.is_empty() && l.key_buffer.is_empty());
}

#[test]
fn keys_without_modifier_are_ignored() {
    let mut l = KeyListener::new();
    l.on_key_press(Key::KeyA);
    assert!(l.key_buffer.is_empty());
    l.on_key_press(Key::Alt);
    assert_eq!(l.on_key_release(Key::Alt), None);
}

#[test]
fn typed_hotkey_fires_and_matches() {
    let seq = parse("Ctrl+Shift+K").unwrap();
    let mut l = KeyListener::new();
    for k in seq.modifiers.iter().chain(seq.keys.iter()) {
        l.on_key_press(*k);
    }
    let mut fired = Vec::new();
    for k in seq.modifiers.iter() {
        if let Some(chord) = l.on_key_release(*k) {
            fired.push(chord);
        }
    }
    assert_eq!(fired.len(), 1);
    let (held, typed) = fired.pop().unwrap();
    assert_eq!(held, seq.modifiers);
    assert_eq!(typed, seq.keys);
    assert_eq!(find_matching_sequence(&vec![seq], &held, &typed), Some(0));
}

#[test]
fn matching_picks_the_first_sequence_that_fits() {
    let a = HotkeySequence::from_hotkey_string("a", "Ctrl+1").unwrap();
    let b = HotkeySequence::from_hotkey_string("b", "Ctrl+1+2").unwrap();
    let c = HotkeySequence::from_hotkey_string("c", "Ctrl+Alt+1+2").unwrap();
    let seqs = vec![a, b, c];
    assert_eq!(find_matching_sequence(&seqs, &vec![Key::ControlRight], &vec![Key::Num1, Key::Num2]), Some(1));
    assert_eq!(find_matching_sequence(&seqs, &vec![Key::Alt, Key::ControlLeft], &vec![Key::Num1, Key::Num2]), Some(2));
    assert_eq!(find_matching_sequence(&seqs, &vec![Key::ControlLeft, Key::ShiftLeft], &vec![Key::Num1]), None);
    assert_eq!(find_matching_sequence(&seqs, &vec![Key::ControlLeft], &vec![Key::Num2]), None);
}

#[test]
fn exactly_the_modifier_names_give_modifiers() {
    let names = [
        "Ctrl", "Control", "ControlLeft", "ControlRight", "Alt", "AltLeft", "AltL", "AltRight", "AltR",
        "AltGr", "Shift", "ShiftLeft", "ShiftRight", "Meta", "Win", "Super", "MetaLeft", "MetaRight",
    ];
    for name in names {
        assert!(is_modifier(&parse_key(name).unwrap()), "{name}");
    }
    for name in ["shift", "CTRL", "win", "A", "F1", "Space", "Numpad1", "Cmd"] {
        assert!(parse_key(name).map_or(true, |k| !is_modifier(&k)), "{name}");
    }
    assert_eq!(parse_key("shift"), None);
}
