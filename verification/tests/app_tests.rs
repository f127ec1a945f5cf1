use voiceinsert::api::transcription::AudioRequestKind;
use voiceinsert::app::commands::{
    add_api_profile, api_profile_required_status, apply_settings_edit, delete_active_api_profile,
    model_for_request, model_options_for_active_profile, models_belong_to_active_profile,
    models_loaded_status, models_loading_status, next_api_profile, non_empty_str,
    parse_language, parse_log_level, parse_recording_mode, profile_id_by_name,
    profile_requires_http_rebuild, save_settings_edit, select_api_profile, settings_saved_status,
    SettingsSaveError,
};
use voiceinsert::app::state::{
    command_effects, failure_effects, sanitize_log_text, OperationState, OverlayChange,
    StateCommand, VoiceInsertState, LEVEL_FULL_SCALE,
};
use voiceinsert::hotkeys::service::HotkeyAction;
use voiceinsert::secrets::{api_key_for_profile, ApiKeys};
use voiceinsert::settings::{ApiProfile, AppLanguage, AppSettings, RecordingMode};
use voiceinsert::sounds::SoundKind;
use voiceinsert::tray::TrayState;
use voiceinsert::ui::SettingsEdit;

/// The level reported for a silent chunk.
const SILENT: u32 = 0;

fn log_error_message(error: &anyhow::Error) -> String {
    sanitize_log_text(&error.root_cause().to_string())
}

fn edit() -> SettingsEdit {
    SettingsEdit {
        profile_name: "ai2npu".to_string(),
        base_url: " http://localhost:9555 ".to_string(),
        api_key: String::new(),
        model: " whisper-large-v3 ".to_string(),
        temperature_tenths: Some(4),
        request_timeout_seconds: "45".to_string(),
        transcription_hotkey: " Ctrl+Space ".to_string(),
        recording_mode: "Hold".to_string(),
        silence_threshold_percent: "8".to_string(),
        silence_timeout_milliseconds: "900".to_string(),
        max_recording_seconds: "30".to_string(),
        start_with_windows: true,
        ui_language: "English".to_string(),
        enable_sounds: false,
        restore_clipboard_content: false,
        delay_before_paste_milliseconds: "120".to_string(),
        delay_before_clipboard_restore_milliseconds: "500".to_string(),
        log_level: "Debug".to_string(),
    }
}

fn keys(pairs: &[(&str, &str)]) -> ApiKeys {
    let mut keys = ApiKeys::new();
    for (id, key) in pairs {
        keys.insert(id.to_string(), key.to_string());
    }
    keys
}

#[test]
fn app_toggle_press_starts_then_stops_recording() {
    let mut state = VoiceInsertState::new(RecordingMode::Toggle, 4, 1200, 120_000);

    assert_eq!(
        state.hotkey_pressed(AudioRequestKind::Transcription),
        StateCommand::StartRecording(AudioRequestKind::Transcription)
    );
    assert_eq!(
        state.hotkey_pressed(AudioRequestKind::Transcription),
        StateCommand::StopAndTranscribe(AudioRequestKind::Transcription)
    );
}

#[test]
fn state_toggle_press_starts_then_stops_recording() {
    let mut state = VoiceInsertState::new(RecordingMode::Toggle, 4, 1200, 120_000);

    assert_eq!(
        state.hotkey_pressed(AudioRequestKind::Transcription),
        StateCommand::StartRecording(AudioRequestKind::Transcription)
    );
    assert_eq!(
        state.hotkey_pressed(AudioRequestKind::Transcription),
        StateCommand::StopAndTranscribe(AudioRequestKind::Transcription)
    );
}

#[test]
fn app_hold_release_stops_recording() {
    let mut state = VoiceInsertState::new(RecordingMode::Hold, 4, 1200, 120_000);

    state.hotkey_pressed(AudioRequestKind::Translation);

    assert_eq!(
        state.hotkey_released(),
        StateCommand::StopAndTranscribe(AudioRequestKind::Translation)
    );
}

#[test]
fn state_hold_release_stops_recording() {
    let mut state = VoiceInsertState::new(RecordingMode::Hold, 4, 1200, 120_000);

    state.hotkey_pressed(AudioRequestKind::Translation);

    assert_eq!(
        state.hotkey_released(),
        StateCommand::StopAndTranscribe(AudioRequestKind::Translation)
    );
}

#[test]
fn app_toggle_ignores_silence_timeout() {
    let mut state = VoiceInsertState::new(RecordingMode::Toggle, 50, 100, 120_000);

    state.hotkey_pressed(AudioRequestKind::Transcription);

    assert_eq!(state.level_changed(SILENT, 1000), StateCommand::Nothing);
    assert_eq!(
        state.state(),
        OperationState::Recording(AudioRequestKind::Transcription)
    );
}

#[test]
fn state_toggle_ignores_silence_timeout() {
    let mut state = VoiceInsertState::new(RecordingMode::Toggle, 50, 100, 120_000);

    state.hotkey_pressed(AudioRequestKind::Transcription);

    assert_eq!(state.level_changed(SILENT, 1000), StateCommand::Nothing);
    assert_eq!(
        state.state(),
        OperationState::Recording(AudioRequestKind::Transcription)
    );
}

#[test]
fn app_silence_timeout_mode_stops_on_silence() {
    let mut state = VoiceInsertState::new(RecordingMode::SilenceTimeout, 50, 100, 120_000);

    state.hotkey_pressed(AudioRequestKind::Transcription);

    assert_eq!(
        state.level_changed(SILENT, 100),
        StateCommand::StopAndTranscribe(AudioRequestKind::Transcription)
    );
}

#[test]
fn state_silence_timeout_mode_stops_on_silence() {
    let mut state = VoiceInsertState::new(RecordingMode::SilenceTimeout, 50, 100, 120_000);

    state.hotkey_pressed(AudioRequestKind::Transcription);

    assert_eq!(
        state.level_changed(SILENT, 100),
        StateCommand::StopAndTranscribe(AudioRequestKind::Transcription)
    );
}

#[test]
fn app_max_duration_stops_all_recording_modes() {
    let mut state = VoiceInsertState::new(RecordingMode::Hold, 50, 1000, 250);

    state.hotkey_pressed(AudioRequestKind::Transcription);

    assert_eq!(
        state.level_changed(LEVEL_FULL_SCALE, 250),
        StateCommand::StopAndTranscribe(AudioRequestKind::Transcription)
    );
}

#[test]
fn state_max_duration_stops_all_recording_modes() {
    let mut state = VoiceInsertState::new(RecordingMode::Hold, 50, 1000, 250);

    state.hotkey_pressed(AudioRequestKind::Transcription);

    assert_eq!(
        state.level_changed(LEVEL_FULL_SCALE, 250),
        StateCommand::StopAndTranscribe(AudioRequestKind::Transcription)
    );
}

#[test]
fn app_hotkey_can_start_new_recording_after_error() {
    let mut state = VoiceInsertState::new(RecordingMode::Toggle, 4, 1200, 120_000);

    state.mark_error();

    assert_eq!(
        state.hotkey_pressed(AudioRequestKind::Transcription),
        StateCommand::StartRecording(AudioRequestKind::Transcription)
    );
    assert_eq!(
        state.state(),
        OperationState::Recording(AudioRequestKind::Transcription)
    );
}

#[test]
fn state_hotkey_can_start_new_recording_after_error() {
    let mut state = VoiceInsertState::new(RecordingMode::Toggle, 4, 1200, 120_000);

    state.mark_error();

    assert_eq!(
        state.hotkey_pressed(AudioRequestKind::Transcription),
        StateCommand::StartRecording(AudioRequestKind::Transcription)
    );
    assert_eq!(
        state.state(),
        OperationState::Recording(AudioRequestKind::Transcription)
    );
}

#[test]
fn cancel_recording_returns_to_idle_without_transcribing() {
    let mut state = VoiceInsertState::new(RecordingMode::Toggle, 4, 1200, 120_000);

    assert_eq!(
        state.hotkey_pressed(AudioRequestKind::Transcription),
        StateCommand::StartRecording(AudioRequestKind::Transcription)
    );
    assert_eq!(state.cancel_recording(), StateCommand::CancelRecording);
    assert_eq!(state.state(), OperationState::Idle);
}

#[test]
fn completion_events_move_state_machine() {
    let mut state = VoiceInsertState::new(RecordingMode::Toggle, 4, 1200, 120_000);
    state.hotkey_pressed(AudioRequestKind::Transcription);
    state.hotkey_pressed(AudioRequestKind::Transcription);
    assert_eq!(
        state.state(),
        OperationState::Transcribing(AudioRequestKind::Transcription)
    );
    // A press while transcribing is ignored.
    assert_eq!(
        state.hotkey_pressed(AudioRequestKind::Transcription),
        StateCommand::Nothing
    );
    state.mark_inserting();
    assert_eq!(state.state(), OperationState::Inserting);
    state.mark_idle();
    assert_eq!(state.state(), OperationState::Idle);
}

#[test]
fn hold_mode_ignores_second_press_while_recording() {
    let mut state = VoiceInsertState::new(RecordingMode::Hold, 4, 1200, 120_000);
    state.hotkey_pressed(AudioRequestKind::Transcription);
    assert_eq!(
        state.hotkey_pressed(AudioRequestKind::Transcription),
        StateCommand::Nothing
    );
    assert_eq!(state.hotkey_released(), StateCommand::StopAndTranscribe(AudioRequestKind::Transcription));
}

#[test]
fn silence_must_last_for_the_whole_timeout() {
    let mut state = VoiceInsertState::new(RecordingMode::SilenceTimeout, 50, 300, 120_000);
    state.hotkey_pressed(AudioRequestKind::Transcription);
    assert_eq!(state.level_changed(SILENT, 200), StateCommand::Nothing);
    // Speech resets the silence timer.
    assert_eq!(state.level_changed(LEVEL_FULL_SCALE, 50), StateCommand::Nothing);
    assert_eq!(state.level_changed(SILENT, 200), StateCommand::Nothing);
    assert_eq!(
        state.level_changed(SILENT, 100),
        StateCommand::StopAndTranscribe(AudioRequestKind::Transcription)
    );
}

#[test]
fn threshold_above_full_scale_is_capped() {
    let state = VoiceInsertState::new(RecordingMode::Toggle, 250, 100, 1000);
    assert_eq!(state.silence_threshold_percent(), 100);
}

#[test]
fn hotkey_actions_drive_transcription_recordings() {
    let mut state = VoiceInsertState::new(RecordingMode::Hold, 4, 1200, 120_000);
    assert_eq!(
        state.handle_hotkey_action(HotkeyAction::CopilotPressed),
        StateCommand::StartRecording(AudioRequestKind::Transcription)
    );
    assert_eq!(
        state.handle_hotkey_action(HotkeyAction::CopilotReleased),
        StateCommand::StopAndTranscribe(AudioRequestKind::Transcription)
    );
    state.mark_idle();
    assert_eq!(
        state.handle_hotkey_action(HotkeyAction::TranscribePressed),
        StateCommand::StartRecording(AudioRequestKind::Transcription)
    );
    assert_eq!(
        state.handle_hotkey_action(HotkeyAction::Released),
        StateCommand::StopAndTranscribe(AudioRequestKind::Transcription)
    );
}

#[test]
fn state_from_settings_uses_recording_policy() {
    let settings = AppSettings {
        recording_mode: RecordingMode::Hold,
        silence_threshold_percent: 7,
        max_recording_seconds: 2,
        ..AppSettings::default()
    };
    let mut state = VoiceInsertState::from_settings(&settings);
    assert_eq!(state.silence_threshold_percent(), 7);
    state.hotkey_pressed(AudioRequestKind::Transcription);
    assert_eq!(state.level_changed(LEVEL_FULL_SCALE, 1999), StateCommand::Nothing);
    assert_eq!(
        state.level_changed(LEVEL_FULL_SCALE, 1),
        StateCommand::StopAndTranscribe(AudioRequestKind::Transcription)
    );
}

#[test]
fn command_effects_follow_workflow() {
    let start = command_effects(StateCommand::StartRecording(AudioRequestKind::Transcription));
    assert_eq!(start.tray, Some(TrayState::Recording));
    assert_eq!(start.overlay, OverlayChange::ShowRecording);
    assert_eq!(start.sound, Some(SoundKind::Start));
    let stop = command_effects(StateCommand::StopAndTranscribe(AudioRequestKind::Transcription));
    assert_eq!(stop.tray, Some(TrayState::Transcribing));
    assert_eq!(stop.sound, Some(SoundKind::Stop));
    let cancel = command_effects(StateCommand::CancelRecording);
    assert_eq!(cancel.tray, Some(TrayState::Idle));
    assert_eq!(cancel.overlay, OverlayChange::Hide);
    let nothing = command_effects(StateCommand::Nothing);
    assert_eq!(nothing.tray, None);
    assert_eq!(nothing.sound, None);
    let failure = failure_effects();
    assert_eq!(failure.tray, Some(TrayState::Error));
    assert_eq!(failure.sound, Some(SoundKind::Error));
}

#[test]
fn app_api_key_prefers_active_profile_then_default() {
    let keys = keys(&[("default", "default-key"), ("ai2npu", "profile-key")]);

    assert_eq!(api_key_for_profile(&keys, "ai2npu"), "profile-key");
    assert_eq!(api_key_for_profile(&keys, "missing"), "default-key");
}

#[test]
fn mod_api_key_prefers_active_profile_then_default() {
    let keys = keys(&[("default", "default-key"), ("ai2npu", "profile-key")]);

    assert_eq!(api_key_for_profile(&keys, "ai2npu"), "profile-key");
    assert_eq!(api_key_for_profile(&keys, "missing"), "default-key");
}

#[test]
fn api_key_is_empty_without_profile_or_default_key() {
    let keys = keys(&[("groq", "g")]);
    assert_eq!(api_key_for_profile(&keys, "ai2npu"), "");
}

#[test]
fn app_profile_id_lookup_uses_visible_profile_name() {
    let settings = AppSettings::default().normalized();

    assert_eq!(
        profile_id_by_name(&settings, "groq"),
        Some("groq".to_string())
    );
    assert_eq!(profile_id_by_name(&settings, "missing"), None);
}

#[test]
fn mod_profile_id_lookup_uses_visible_profile_name() {
    let settings = AppSettings::default().normalized();

    assert_eq!(
        profile_id_by_name(&settings, "groq"),
        Some("groq".to_string())
    );
    assert_eq!(profile_id_by_name(&settings, "missing"), None);
}

#[test]
fn app_empty_model_uses_transcription_fallback() {
    assert_eq!(model_for_request(""), "openai/whisper-large-v3-turbo");
    assert_eq!(model_for_request(" custom-model "), "custom-model");
}

#[test]
fn mod_empty_model_uses_transcription_fallback() {
    assert_eq!(model_for_request(""), "openai/whisper-large-v3-turbo");
    assert_eq!(model_for_request(" custom-model "), "custom-model");
}

#[test]
fn non_empty_str_trims_and_drops_blank_text() {
    assert_eq!(non_empty_str("  x "), Some("x".to_string()));
    assert_eq!(non_empty_str("   "), None);
}

fn check_edited(settings: &AppSettings) {
    assert_eq!(settings.active_profile().base_url, "http://localhost:9555");
    assert_eq!(settings.active_profile().model, "whisper-large-v3");
    assert_eq!(settings.active_profile().language, "en");
    assert_eq!(settings.active_profile().temperature_tenths, 4);
    assert_eq!(settings.active_profile().request_timeout_seconds, 45);
    assert_eq!(settings.hotkey, "Ctrl+Space");
    assert_eq!(settings.recording_mode, RecordingMode::Hold);
    assert_eq!(settings.silence_threshold_percent, 8);
    assert_eq!(settings.silence_timeout_milliseconds, 900);
    assert_eq!(settings.max_recording_seconds, 30);
    assert!(settings.start_with_windows);
    assert!(settings.launch_minimized_to_tray);
    assert!(settings.show_floating_recording_window);
    assert!(!settings.enable_sounds);
    assert!(!settings.restore_clipboard_content);
    assert_eq!(settings.delay_before_paste_milliseconds, 120);
    assert_eq!(settings.delay_before_clipboard_restore_milliseconds, 500);
    assert_eq!(settings.log_level, "Debug");
}

#[test]
fn app_apply_settings_edit_updates_active_profile_and_hotkeys() {
    let mut settings = AppSettings::default().normalized();
    settings.api_profiles[0].language = "en".to_string();
    let settings = apply_settings_edit(settings, edit()).normalized();

    check_edited(&settings);
}

#[test]
fn mod_apply_settings_edit_updates_active_profile_and_hotkeys() {
    let mut settings = AppSettings::default().normalized();
    settings.api_profiles[0].language = "en".to_string();
    let settings = apply_settings_edit(settings, edit()).normalized();

    check_edited(&settings);
}

#[test]
fn apply_settings_edit_keeps_values_that_do_not_parse() {
    let settings = AppSettings::default().normalized();
    let mut e = edit();
    e.silence_threshold_percent = "lots".to_string();
    e.max_recording_seconds = "-1".to_string();
    e.temperature_tenths = None;
    let settings = apply_settings_edit(settings, e);
    assert_eq!(settings.silence_threshold_percent, 4);
    assert_eq!(settings.max_recording_seconds, 120);
    assert_eq!(settings.active_profile().temperature_tenths, 2);
}

#[test]
fn profile_timeout_change_requires_http_rebuild() {
    let old_profile = ApiProfile {
        request_timeout_seconds: 30,
        ..ApiProfile::default()
    };
    let new_profile = ApiProfile {
        request_timeout_seconds: 120,
        ..old_profile.clone()
    };

    assert!(profile_requires_http_rebuild(&old_profile, &new_profile));
    assert!(!profile_requires_http_rebuild(&old_profile, &old_profile));
}

#[test]
fn settings_status_messages_follow_ui_language() {
    assert_eq!(
        settings_saved_status(AppLanguage::Russian),
        "Настройки сохранены."
    );
    assert_eq!(settings_saved_status(AppLanguage::English), "Settings saved.");
    assert_eq!(
        models_loading_status(AppLanguage::Russian),
        "Загрузка моделей..."
    );
    assert_eq!(models_loading_status(AppLanguage::English), "Loading models...");
    assert_eq!(
        models_loaded_status(AppLanguage::Russian),
        "Модели загружены."
    );
    assert_eq!(models_loaded_status(AppLanguage::English), "Models loaded.");
    assert_eq!(
        api_profile_required_status(AppLanguage::English),
        "At least one API profile is required."
    );
}

#[test]
fn settings_labels_parse_in_both_languages() {
    assert_eq!(parse_recording_mode("Удержание"), RecordingMode::Hold);
    assert_eq!(parse_recording_mode(" SilenceTimeout "), RecordingMode::SilenceTimeout);
    assert_eq!(parse_recording_mode("anything"), RecordingMode::Toggle);
    assert_eq!(parse_language("English"), AppLanguage::English);
    assert_eq!(parse_language("Русский"), AppLanguage::Russian);
    assert_eq!(parse_log_level("Ошибки"), "Error");
    assert_eq!(parse_log_level("Verbose"), "Information");
}

#[test]
fn log_error_message_uses_root_cause_only() {
    let error = anyhow::Error::msg("base cause").context("outer context");

    assert_eq!(log_error_message(&error), "base cause");
}

#[test]
fn voice_completion_error_uses_sanitized_root_cause() {
    let error =
        anyhow::Error::msg("clipboard failed\nprivate recognized text").context("outer context");

    assert_eq!(log_error_message(&error), "clipboard failed");
}

#[test]
fn sanitize_log_text_trims_newlines_and_limits_length() {
    let message = "first line\nsecond line";
    let sanitized = sanitize_log_text(message);

    assert_eq!(sanitized, "first line");
}

#[test]
fn sanitize_log_text_limits_to_three_hundred_characters() {
    let message = format!("  {}\r\nrest", "ж".repeat(400));
    assert_eq!(sanitize_log_text(&message), "ж".repeat(300));
}

#[test]
fn next_api_profile_picks_a_free_numbered_id() {
    let settings = AppSettings::default().normalized();
    let profile = next_api_profile(&settings.api_profiles);
    assert_eq!(profile.id, "profile-3");
    assert_eq!(profile.name, "profile-3");
    assert_eq!(profile.base_url, "http://localhost:9555");

    let mut taken = settings.api_profiles.clone();
    taken[1].id = "profile-3".to_string();
    assert_eq!(next_api_profile(&taken).id, "profile-4");
}

#[test]
fn add_profile_appends_and_activates_it() {
    let settings = add_api_profile(AppSettings::default().normalized());
    assert_eq!(settings.api_profiles.len(), 3);
    assert_eq!(settings.active_api_profile_id, "profile-3");
    assert_eq!(settings.active_profile().name, "profile-3");
}

#[test]
fn delete_profile_removes_active_profile_and_key() {
    let mut settings = add_api_profile(AppSettings::default().normalized());
    let mut api_keys = keys(&[("profile-3", "k3"), ("groq", "g")]);
    assert!(delete_active_api_profile(&mut settings, &mut api_keys));
    assert_eq!(settings.api_profiles.len(), 2);
    assert_eq!(settings.active_api_profile_id, "ai2npu");
    assert_eq!(api_keys.get("profile-3"), None);
    assert_eq!(api_keys.get("groq"), Some(&"g".to_string()));
}

#[test]
fn last_profile_is_never_deleted() {
    let mut settings = AppSettings {
        api_profiles: vec![ApiProfile::default()],
        ..AppSettings::default()
    };
    let before = settings.clone();
    let mut api_keys = keys(&[("ai2npu", "k")]);
    assert!(!delete_active_api_profile(&mut settings, &mut api_keys));
    assert_eq!(settings, before);
    assert_eq!(api_keys.len(), 1);
}

#[test]
fn select_profile_by_visible_name() {
    let mut settings = AppSettings::default().normalized();
    assert!(select_api_profile(&mut settings, " groq "));
    assert_eq!(settings.active_api_profile_id, "groq");
    assert!(!select_api_profile(&mut settings, "groq"));
    assert!(!select_api_profile(&mut settings, "missing"));
    assert_eq!(settings.active_api_profile_id, "groq");
}

#[test]
fn saving_edit_reports_what_changed() {
    let settings = AppSettings::default().normalized();
    let api_keys = keys(&[("groq", "g")]);
    let mut e = edit();
    e.api_key = " sk-local ".to_string();
    let save = save_settings_edit(&settings, &api_keys, e).unwrap();
    check_edited(&{
        let mut s = save.settings.clone();
        s.api_profiles[0].language = "en".to_string();
        s
    });
    assert_eq!(save.api_keys.get("ai2npu"), Some(&"sk-local".to_string()));
    assert!(!save.hotkeys_changed);
    assert!(save.language_changed);
    assert!(save.models_source_changed);
}

#[test]
fn saving_edit_with_blank_key_removes_it() {
    let settings = AppSettings::default().normalized();
    let api_keys = keys(&[("ai2npu", "old")]);
    let mut e = edit();
    e.transcription_hotkey = "alt+y".to_string();
    let save = save_settings_edit(&settings, &api_keys, e).unwrap();
    assert_eq!(save.api_keys.get("ai2npu"), None);
    assert!(save.hotkeys_changed);
    assert_eq!(save.settings.hotkey, "Alt+Y");
}

#[test]
fn saving_edit_rejects_bad_hotkey_or_base_url() {
    let settings = AppSettings::default().normalized();
    let api_keys = ApiKeys::new();
    let mut e = edit();
    e.transcription_hotkey = "ctrl+nonsense".to_string();
    match save_settings_edit(&settings, &api_keys, e) {
        Err(SettingsSaveError::Hotkey(error)) => {
            assert_eq!(error.message(), "Unknown hotkey key: nonsense")
        }
        other => panic!("unexpected: {other:?}"),
    }
    let mut e = edit();
    e.base_url = "http://host/v1/audio/transcriptions".to_string();
    let error = save_settings_edit(&settings, &api_keys, e).unwrap_err();
    assert_eq!(error.message(), "Base URL must not include an audio endpoint");
}

#[test]
fn model_lists_only_apply_to_active_profile() {
    let settings = AppSettings::default().normalized();
    let options = vec!["a".to_string(), "b".to_string()];
    assert!(models_belong_to_active_profile(&settings, "ai2npu"));
    assert!(!models_belong_to_active_profile(&settings, "groq"));
    assert_eq!(
        model_options_for_active_profile(&settings, Some("ai2npu"), &options),
        options
    );
    assert!(model_options_for_active_profile(&settings, Some("groq"), &options).is_empty());
    assert!(model_options_for_active_profile(&settings, None, &options).is_empty());
}

#[test]
fn added_profile_is_the_active_one_with_its_server() {
    let mut settings = AppSettings::default().normalized();
    assert!(select_api_profile(&mut settings, "groq"));
    let settings = add_api_profile(settings);
    let active = settings.active_profile();
    assert_eq!(active.id, "profile-3");
    assert_eq!(active.base_url, "http://localhost:9555");
    assert_eq!(active.model, "openai/whisper-large-v3-turbo");
    assert_eq!(active.temperature_tenths, 2);
    assert_eq!(active.request_timeout_seconds, 120);
}

#[test]
fn deleted_profile_is_gone_but_builtin_comes_back() {
    let mut settings = add_api_profile(AppSettings::default().normalized());
    let mut api_keys = keys(&[]);
    assert!(delete_active_api_profile(&mut settings, &mut api_keys));
    assert!(!settings.api_profiles.iter().any(|p| p.id == "profile-3"));

    let mut settings = AppSettings::default().normalized();
    assert_eq!(settings.active_api_profile_id, "ai2npu");
    assert!(delete_active_api_profile(&mut settings, &mut api_keys));
    assert!(settings.api_profiles.iter().any(|p| p.id == "ai2npu"));
}
