use global_hotkey::hotkey::{Code, HotKey, Modifiers};
use voiceinsert::hotkeys::matcher::{normalize_hotkey, HotkeyError};
use voiceinsert::hotkeys::service::{
    copilot_action, copilot_hook_step, global_hotkey_value, is_copilot_hotkey,
    parse_global_hotkey, registered_hotkeys, transcription_action, CopilotHookStep,
    CopilotKeyEvent, GlobalHotkeyError, HookKeyEvent, HotkeyAction, HotkeyRegistration,
};

#[test]
fn matcher_normalizes_modifier_order() {
    assert_eq!(normalize_hotkey("space+ctrl").unwrap(), "Ctrl+Space");
    assert_eq!(normalize_hotkey("Y+Alt").unwrap(), "Alt+Y");
    assert_eq!(
        normalize_hotkey("shift + win + ctrl + f12").unwrap(),
        "Ctrl+Shift+Win+F12"
    );
}

#[test]
fn hotkey_tests_normalizes_modifier_order() {
    assert_eq!(normalize_hotkey("space+ctrl").unwrap(), "Ctrl+Space");
    assert_eq!(normalize_hotkey("Y+Alt").unwrap(), "Alt+Y");
}

#[test]
fn accepts_hotkeys_without_modifier() {
    assert_eq!(normalize_hotkey("Space").unwrap(), "Space");
    assert_eq!(normalize_hotkey("f23").unwrap(), "F23");
    assert_eq!(normalize_hotkey("y").unwrap(), "Y");
}

#[test]
fn accepts_common_named_keys() {
    assert_eq!(normalize_hotkey("ctrl+escape").unwrap(), "Ctrl+Esc");
    assert_eq!(normalize_hotkey("alt+pageup").unwrap(), "Alt+PageUp");
}

#[test]
fn rejects_malformed_hotkeys() {
    assert_eq!(normalize_hotkey("ctrl+alt"), Err(HotkeyError::MissingMainKey));
    assert_eq!(normalize_hotkey(""), Err(HotkeyError::MissingMainKey));
    assert_eq!(normalize_hotkey("a+b"), Err(HotkeyError::MultipleMainKeys));
    assert_eq!(
        normalize_hotkey("ctrl+f25"),
        Err(HotkeyError::UnknownKey("f25".to_string()))
    );
    assert_eq!(
        HotkeyError::UnknownKey("x1".to_string()).message(),
        "Unknown hotkey key: x1"
    );
}

#[test]
fn registration_normalizes_hotkeys() {
    let registration = HotkeyRegistration::new("space+ctrl").unwrap();

    assert_eq!(registration.transcription, "Ctrl+Space");
}

#[test]
fn normalized_hotkeys_parse_for_global_backend() {
    assert!(parse_global_hotkey("Ctrl+Space").is_ok());
    assert!(parse_global_hotkey("Alt+Y").is_ok());
    assert!(parse_global_hotkey("Ctrl+F12").is_ok());
    assert!(parse_global_hotkey("F23").is_ok());
    assert!(parse_global_hotkey("Shift+Win+F23").is_ok());
    assert!(parse_global_hotkey("Space").is_ok());
}

#[test]
fn invalid_hotkeys_do_not_reach_the_backend() {
    assert!(matches!(
        parse_global_hotkey("ctrl+alt"),
        Err(GlobalHotkeyError::Hotkey(HotkeyError::MissingMainKey))
    ));
}

#[test]
fn global_backend_uses_super_for_windows_modifier() {
    assert_eq!(global_hotkey_value("Shift+Win+F23"), "Shift+Super+F23");
}

#[test]
fn global_backend_spelling_keeps_other_parts() {
    assert_eq!(global_hotkey_value("Ctrl+Space"), "Ctrl+Space");
    assert_eq!(global_hotkey_value("Win"), "Super");
    assert_eq!(global_hotkey_value("Winner+Win+"), "Winner+Super+");
}

#[test]
fn plain_f23_also_registers_copilot_chord() {
    let registration = HotkeyRegistration::new("F23").unwrap();
    let hotkeys = registered_hotkeys(&registration);

    assert_eq!(hotkeys, vec!["F23"]);
}

#[test]
fn copilot_chord_uses_low_level_hook_registration() {
    let registration = HotkeyRegistration::new("Shift+Win+F23").unwrap();
    let hotkeys = registered_hotkeys(&registration);

    assert!(hotkeys.is_empty());
    assert!(is_copilot_hotkey(&registration.transcription));
}

#[test]
fn registration_does_not_include_global_escape_hotkey() {
    let registration = HotkeyRegistration::new("Ctrl+Space").unwrap();
    let hotkeys = registered_hotkeys(&registration);

    assert_eq!(hotkeys, vec!["Ctrl+Space"]);
    assert!(!hotkeys
        .iter()
        .any(|hotkey| hotkey.eq_ignore_ascii_case("Esc")));
}

#[test]
fn backend_events_map_to_actions() {
    assert_eq!(
        transcription_action(true, 7, &[3, 7]),
        Some(HotkeyAction::TranscribePressed)
    );
    assert_eq!(
        transcription_action(false, 7, &[7]),
        Some(HotkeyAction::Released)
    );
    assert_eq!(transcription_action(true, 8, &[7]), None);
    assert_eq!(copilot_action(CopilotKeyEvent::Pressed), HotkeyAction::CopilotPressed);
    assert_eq!(copilot_action(CopilotKeyEvent::Released), HotkeyAction::CopilotReleased);
}

#[test]
fn copilot_hook_reports_chord_press_and_release() {
    let down = HookKeyEvent {
        is_f23: true,
        is_down: true,
        is_up: false,
        shift_down: true,
        win_down: true,
    };
    let up = HookKeyEvent {
        is_down: false,
        is_up: true,
        ..down
    };
    assert_eq!(
        copilot_hook_step(false, down),
        CopilotHookStep {
            active: true,
            event: Some(CopilotKeyEvent::Pressed)
        }
    );
    // Key repeat while held reports nothing.
    assert_eq!(
        copilot_hook_step(true, down),
        CopilotHookStep {
            active: true,
            event: None
        }
    );
    assert_eq!(
        copilot_hook_step(true, up),
        CopilotHookStep {
            active: false,
            event: Some(CopilotKeyEvent::Released)
        }
    );
    // F23 without Shift and Win is no chord.
    let plain = HookKeyEvent {
        shift_down: false,
        ..down
    };
    assert_eq!(copilot_hook_step(false, plain).event, None);
    // Other keys leave the state alone.
    let other = HookKeyEvent {
        is_f23: false,
        ..up
    };
    assert_eq!(
        copilot_hook_step(true, other),
        CopilotHookStep {
            active: true,
            event: None
        }
    );
}

#[test]
fn backend_hotkey_id_belongs_to_the_given_text() {
    let (hotkey, id) = parse_global_hotkey("space+ctrl").unwrap();
    assert_eq!(id, hotkey.id());
    assert_eq!(id, HotKey::new(Some(Modifiers::CONTROL), Code::Space).id());
    let (_, win_id) = parse_global_hotkey("Shift+Win+F23").unwrap();
    assert_eq!(
        win_id,
        HotKey::new(Some(Modifiers::SHIFT | Modifiers::SUPER), Code::F23).id()
    );
    let (_, other) = parse_global_hotkey("Alt+Y").unwrap();
    assert_ne!(id, other);
}

#[test]
fn normalization_ignores_order_case_spaces_empty_and_repeated_parts() {
    let expected = normalize_hotkey("Ctrl+Shift+Space").unwrap();
    assert_eq!(expected, "Ctrl+Shift+Space");
    assert_eq!(normalize_hotkey(" SPACE + + shift+ctrl + CTRL ").unwrap(), expected);
    assert_eq!(normalize_hotkey("shift+space+control").unwrap(), expected);
    assert!(normalize_hotkey("space+ctrl+enter").is_err());
    assert!(normalize_hotkey("ctrl+enter+space").is_err());
}
