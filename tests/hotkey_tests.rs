use live_transcribe::config::HotkeyConfig;
use live_transcribe::hotkey::{
    hotkey_event_for, key_code_from_upper, modifier_from_word, parse_hotkey, parse_key_code, plan_bindings,
    HotkeyBindings, HotkeyError, HotkeyEvent, HotkeyRole, KeyCode, Modifier,
};

#[test]
fn parses_default_hotkey() {
    let spec = parse_hotkey("Cmd+Shift+T").unwrap();
    assert!(spec.modifiers.super_key && spec.modifiers.shift);
    assert!(!spec.modifiers.control && !spec.modifiers.alt);
    assert_eq!(spec.key, KeyCode::Letter('T'));
}

#[test]
fn parses_with_spaces_and_any_case() {
    let spec = parse_hotkey(" ctrl + Option +f12 ").unwrap();
    assert!(spec.modifiers.control && spec.modifiers.alt);
    assert_eq!(spec.key, KeyCode::Function(12));
    assert_eq!(parse_hotkey("command+esc").unwrap().key, KeyCode::Escape);
    assert_eq!(parse_hotkey("super+Return").unwrap().key, KeyCode::Enter);
}

#[test]
fn last_key_wins() {
    assert_eq!(parse_hotkey("A+7").unwrap().key, KeyCode::Digit(7));
}

#[test]
fn unknown_key_is_reported_lower_cased() {
    assert_eq!(parse_hotkey("Cmd+Foo"), Err(HotkeyError::UnknownKey("foo".to_string())));
    assert_eq!(parse_hotkey("Cmd+F13"), Err(HotkeyError::UnknownKey("f13".to_string())));
}

#[test]
fn missing_key_is_reported() {
    assert_eq!(parse_hotkey("Cmd+Shift"), Err(HotkeyError::NoKey));
}

#[test]
fn key_names() {
    assert_eq!(key_code_from_upper("SPACE"), Some(KeyCode::Space));
    assert_eq!(key_code_from_upper("F1"), Some(KeyCode::Function(1)));
    assert_eq!(key_code_from_upper("F10"), Some(KeyCode::Function(10)));
    assert_eq!(key_code_from_upper("0"), Some(KeyCode::Digit(0)));
    assert_eq!(key_code_from_upper("a"), None);
    assert_eq!(parse_key_code("backspace"), Ok(KeyCode::Backspace));
    assert_eq!(parse_key_code("tab"), Ok(KeyCode::Tab));
    assert_eq!(parse_key_code("q"), Ok(KeyCode::Letter('Q')));
    assert_eq!(parse_key_code("f0"), Err(HotkeyError::UnknownKey("f0".to_string())));
}

#[test]
fn modifier_words() {
    assert_eq!(modifier_from_word("cmd"), Some(Modifier::Super));
    assert_eq!(modifier_from_word("control"), Some(Modifier::Control));
    assert_eq!(modifier_from_word("option"), Some(Modifier::Alt));
    assert_eq!(modifier_from_word("shift"), Some(Modifier::Shift));
    assert_eq!(modifier_from_word("Shift"), None);
}

#[test]
fn same_description_means_toggle() {
    let config = HotkeyConfig { start_transcription: "Cmd+R".to_string(), stop_transcription: "Cmd+R".to_string() };
    match plan_bindings(&config) {
        Ok(HotkeyBindings::Toggle(spec)) => assert_eq!(spec.key, KeyCode::Letter('R')),
        other => panic!("unexpected {:?}", other),
    }
    let config = HotkeyConfig::default();
    match plan_bindings(&config) {
        Ok(HotkeyBindings::Separate { start, stop }) => {
            assert_eq!(start.key, KeyCode::Letter('T'));
            assert_eq!(stop.key, KeyCode::Letter('S'));
        }
        other => panic!("unexpected {:?}", other),
    }
    let config = HotkeyConfig { start_transcription: "Cmd+T".to_string(), stop_transcription: "Cmd+?".to_string() };
    assert!(matches!(plan_bindings(&config), Err((HotkeyRole::Stop, HotkeyError::UnknownKey(_)))));
}

#[test]
fn pressed_hotkey_maps_to_event() {
    assert_eq!(hotkey_event_for(3, Some(3), None, None), Some(HotkeyEvent::ToggleTranscription));
    assert_eq!(hotkey_event_for(5, None, Some(5), Some(6)), Some(HotkeyEvent::StartTranscription));
    assert_eq!(hotkey_event_for(6, None, Some(5), Some(6)), Some(HotkeyEvent::StopTranscription));
    assert_eq!(hotkey_event_for(7, None, Some(5), Some(6)), None);
}
