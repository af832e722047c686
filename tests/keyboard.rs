use metmac::events::KeyEvent;
use metmac::keyboard::{
    alt_key_name, handle_keyboard_event, has_ascii_punctuation, map_custom_unknowns,
    meta_key_name, parse_name_from_event, push_decimal, unknown_key_name, InputEvent, InputKind, Key,
};
use metmac::windows::WindowInfo;

fn press(key: Key, name: Option<&str>) -> InputEvent {
    InputEvent { event_type: InputKind::KeyPress(key), name: name.map(|s| s.to_string()) }
}

#[test]
fn named_keys() {
    assert_eq!(parse_name_from_event(&press(Key::KeyA, Some("a"))), "a");
    assert_eq!(parse_name_from_event(&press(Key::ControlLeft, None)), "ctrl_left");
    assert_eq!(parse_name_from_event(&press(Key::KpReturn, None)), "numpad_enter");
    assert_eq!(parse_name_from_event(&press(Key::BackSlash, None)), "\\");
    assert_eq!(parse_name_from_event(&press(Key::F11, None)), "f11");
    assert_eq!(parse_name_from_event(&press(Key::Function, None)), "fn");
    assert_eq!(parse_name_from_event(&press(Key::MetaLeft, None)), "command_left");
    assert_eq!(parse_name_from_event(&press(Key::AltGr, None)), "opt_right");
}

#[test]
fn modifier_names() {
    assert_eq!(meta_key_name(true), "command_left");
    assert_eq!(meta_key_name(false), "command_right");
    assert_eq!(alt_key_name(true), "opt_left");
    assert_eq!(alt_key_name(false), "opt_right");
}

#[test]
fn custom_unknown_codes() {
    assert_eq!(map_custom_unknowns(115), Some("home".to_string()));
    assert_eq!(map_custom_unknowns(117), Some("delete".to_string()));
    assert_eq!(map_custom_unknowns(62), Some("ctrl_right".to_string()));
    assert_eq!(map_custom_unknowns(63), None);
}

#[test]
fn unknown_keys() {
    assert_eq!(parse_name_from_event(&press(Key::Unknown(115), Some("x"))), "home");
    assert_eq!(parse_name_from_event(&press(Key::Unknown(42), Some("é"))), "é");
    assert_eq!(parse_name_from_event(&press(Key::Unknown(42), Some("a?"))), "unknown_42");
    assert_eq!(parse_name_from_event(&press(Key::Unknown(7), None)), "unknown_7");
    assert_eq!(unknown_key_name(0, &None), "unknown_0");
}

#[test]
fn empty_platform_text_is_not_a_name() {
    assert_eq!(parse_name_from_event(&press(Key::Unknown(42), Some(""))), "unknown_42");
    assert_eq!(unknown_key_name(1, &Some(String::new())), "unknown_1");
    let e = handle_keyboard_event(&press(Key::Unknown(42), Some("")), 9).unwrap();
    assert_eq!(e.key_name, "unknown_42");
    assert_eq!(e.timestamp, 9);
}

#[test]
fn decimal_digits() {
    let mut s = "n=".to_string();
    push_decimal(&mut s, 4_294_967_295);
    assert_eq!(s, "n=4294967295");
    let mut z = String::new();
    push_decimal(&mut z, 0);
    assert_eq!(z, "0");
    let mut t = String::new();
    push_decimal(&mut t, 1009);
    assert_eq!(t, "1009");
}

#[test]
fn ascii_punctuation() {
    assert!(has_ascii_punctuation("ab!"));
    assert!(has_ascii_punctuation("~"));
    assert!(has_ascii_punctuation("`"));
    assert!(!has_ascii_punctuation("abc 09"));
    assert!(!has_ascii_punctuation("ßé"));
    assert!(!has_ascii_punctuation(""));
}

#[test]
fn only_key_presses_are_recorded() {
    let release = InputEvent { event_type: InputKind::KeyRelease(Key::KeyA), name: None };
    let other = InputEvent { event_type: InputKind::Other, name: None };
    assert!(handle_keyboard_event(&release, 5).is_none());
    assert!(handle_keyboard_event(&other, 5).is_none());
    let e: KeyEvent = handle_keyboard_event(&press(Key::Space, None), 1234).unwrap();
    assert_eq!(e.key_name, "space");
    assert_eq!(e.timestamp, 1234);
}

#[test]
fn key_press_keeps_the_given_timestamp() {
    let e = handle_keyboard_event(&press(Key::Tab, None), 1_577_836_800_000).unwrap();
    assert_eq!(e.key_name, "tab");
    assert_eq!(e.timestamp, 1_577_836_800_000);
    let early = handle_keyboard_event(&press(Key::Tab, Some("tab")), -1).unwrap();
    assert_eq!(early.timestamp, -1);
}

#[test]
fn key_event_new_keeps_fields() {
    let e = KeyEvent::new("q".to_string(), -3);
    assert_eq!(e.key_name, "q");
    assert_eq!(e.timestamp, -3);
}

#[test]
fn focusable_windows_are_on_layer_zero() {
    let w = |layer| WindowInfo { name: None, owner: Some("app".to_string()), layer };
    assert!(w(Some(0)).is_focusable());
    assert!(!w(Some(3)).is_focusable());
    assert!(!w(None).is_focusable());
}
