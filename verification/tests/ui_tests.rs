use voiceinsert::settings::{AppLanguage, AppSettings, RecordingMode};
use voiceinsert::ui::{
    api_profile_options_for_display, captured_hotkey_label, captured_key_label,
    language_options_for_display, log_level_options_for_display, model_label,
    model_options_for_display, recording_mode_options_for_display,
};

#[test]
fn empty_model_label_uses_default_transcription_model() {
    assert_eq!(model_label(""), "openai/whisper-large-v3-turbo");
    assert_eq!(model_label(" custom "), "custom");
}

#[test]
fn model_options_include_current_model_first_and_deduplicate() {
    let options = vec![
        "openai/whisper-large-v3-turbo".to_string(),
        "custom".to_string(),
        " custom ".to_string(),
    ];

    assert_eq!(
        model_options_for_display("custom", &options),
        vec!["custom".to_string(), "openai/whisper-large-v3-turbo".to_string()]
    );
}

#[test]
fn api_profile_options_include_active_profile_first() {
    let mut settings = AppSettings::default().normalized();
    settings.active_api_profile_id = "groq".to_string();

    assert_eq!(
        api_profile_options_for_display(&settings),
        vec!["groq".to_string(), "ai2npu".to_string()]
    );
}

#[test]
fn recording_mode_options_include_current_mode_first() {
    assert_eq!(
        recording_mode_options_for_display(RecordingMode::Hold, AppLanguage::Russian)[0],
        "Удержание"
    );
    assert_eq!(
        recording_mode_options_for_display(RecordingMode::Hold, AppLanguage::English)[0],
        "Hold"
    );
}

#[test]
fn log_level_options_include_current_level_first() {
    assert_eq!(
        log_level_options_for_display("Debug", AppLanguage::Russian)[0],
        "Отладка"
    );
    assert_eq!(
        log_level_options_for_display("Debug", AppLanguage::English)[0],
        "Debug"
    );
}

#[test]
fn language_options_include_current_language_first() {
    assert_eq!(language_options_for_display(AppLanguage::English)[0], "English");
    assert_eq!(
        language_options_for_display(AppLanguage::Russian),
        vec!["Русский".to_string(), "English".to_string()]
    );
}

#[test]
fn captured_hotkey_label_normalizes_shortcut() {
    assert_eq!(
        captured_hotkey_label(" ", true, false, false, false).unwrap(),
        Some("Ctrl+Space".to_string())
    );
    assert_eq!(
        captured_hotkey_label("y", false, true, false, false).unwrap(),
        Some("Alt+Y".to_string())
    );
}

#[test]
fn captured_hotkey_label_ignores_modifier_only_press() {
    assert_eq!(
        captured_hotkey_label("\u{0011}", true, false, false, false).unwrap(),
        None
    );
}

#[test]
fn captured_hotkey_label_accepts_single_key() {
    assert_eq!(
        captured_hotkey_label("Y", false, false, false, false).unwrap(),
        Some("Y".to_string())
    );
    assert_eq!(
        captured_hotkey_label("F23", false, false, false, false).unwrap(),
        Some("F23".to_string())
    );
}

#[test]
fn captured_hotkey_label_accepts_copilot_chord() {
    assert_eq!(
        captured_hotkey_label("F23", false, false, true, true).unwrap(),
        Some("Shift+Win+F23".to_string())
    );
    assert_eq!(
        captured_hotkey_label("\u{F71A}", false, false, true, true).unwrap(),
        Some("Shift+Win+F23".to_string())
    );
}

#[test]
fn captured_key_label_maps_named_keys() {
    assert_eq!(captured_key_label("\u{F72C}"), Some("PageUp".to_string()));
    assert_eq!(captured_key_label("\u{001b}"), Some("Esc".to_string()));
    assert_eq!(captured_key_label("\u{F71A}"), Some("F23".to_string()));
    assert_eq!(captured_key_label("F23"), Some("F23".to_string()));
}
