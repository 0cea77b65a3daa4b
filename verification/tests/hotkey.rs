use g_type::hotkey::{parse_hotkey, HotkeyError, Modifier};

#[test]
fn test_parse_hotkey_ctrl_shift_space() {
    let hk = parse_hotkey("ctrl+shift+space").unwrap();
    assert!(hk.modifiers.contains(&Modifier::Ctrl));
    assert!(hk.modifiers.contains(&Modifier::Shift));
    assert_eq!(hk.trigger, "space");
}

#[test]
fn test_parse_hotkey_ctrl_t() {
    let hk = parse_hotkey("ctrl+t").unwrap();
    assert!(hk.modifiers.contains(&Modifier::Ctrl));
    assert!(!hk.modifiers.contains(&Modifier::Shift));
    assert_eq!(hk.trigger, "t");
}

#[test]
fn test_parse_hotkey_alt_f9() {
    let hk = parse_hotkey("alt+f9").unwrap();
    assert!(hk.modifiers.contains(&Modifier::Alt));
    assert_eq!(hk.trigger, "f9");
}

#[test]
fn test_parse_hotkey_invalid() {
    assert!(parse_hotkey("").is_err());
    assert!(parse_hotkey("ctrl+shift+badkey123").is_err());
}

#[test]
fn test_parse_hotkey_errors() {
    assert!(matches!(parse_hotkey("ctrl+shift"), Err(HotkeyError::NoTriggerKey)));
    assert!(matches!(parse_hotkey("ctrl+a+b"), Err(HotkeyError::MultipleTriggerKeys)));
    assert!(matches!(parse_hotkey("ctrl+nosuchkey"), Err(HotkeyError::UnknownKey)));
}

#[test]
fn test_parse_hotkey_aliases_and_case() {
    let hk = parse_hotkey(" Control + ESC ").unwrap();
    assert!(hk.modifiers.contains(&Modifier::Ctrl));
    assert_eq!(hk.trigger, "escape");
    assert_eq!(hk.label, " Control + ESC ");
    let hk = parse_hotkey("super+Return").unwrap();
    assert!(hk.modifiers.contains(&Modifier::Meta));
    assert_eq!(hk.trigger, "enter");
}

#[test]
fn test_parse_hotkey_duplicate_modifiers() {
    let hk = parse_hotkey("ctrl+control+t").unwrap();
    assert_eq!(hk.modifiers, vec![Modifier::Ctrl]);
}
