use voiceinsert::i18n::texts;
use voiceinsert::secrets::{deserialize_keys, serialize_keys, ApiKeys, SecretsError};
use voiceinsert::settings::{
    ApiProfile, AppLanguage, AppSettings, AppSettingsFile, EnumNumberError, RecordingMode,
};

fn profile(id: &str, name: &str, base_url: &str, temperature_tenths: i64, timeout: u64) -> ApiProfile {
    ApiProfile {
        id: id.to_string(),
        name: name.to_string(),
        base_url: base_url.to_string(),
        model: "whisper".to_string(),
        language: String::new(),
        temperature_tenths,
        request_timeout_seconds: timeout,
    }
}

#[test]
fn localization_texts_match_language() {
    let russian = texts(AppLanguage::Russian);
    let english = texts(AppLanguage::English);

    assert_eq!(russian.settings, "Настройки");
    assert_eq!(russian.exit, "Выход");
    assert_eq!(english.settings, "Settings");
    assert_eq!(english.exit, "Exit");
}

#[test]
fn defaults_create_ai2npu_and_groq_profiles() {
    let settings = AppSettings::default().normalized();

    assert_eq!(settings.active_profile().name, "ai2npu");
    assert_eq!(settings.active_profile().base_url, "http://localhost:9555");
    assert_eq!(settings.active_profile().temperature_tenths, 2);
    assert_eq!(settings.active_profile().request_timeout_seconds, 120);
    assert_eq!(settings.active_profile().model, "openai/whisper-large-v3-turbo");
    assert_eq!(settings.api_profiles[1].name, "groq");
    assert_eq!(settings.api_profiles[1].base_url, "https://api.groq.com/openai/");
    assert_eq!(settings.api_profiles[1].temperature_tenths, 2);
    assert_eq!(settings.api_profiles[1].request_timeout_seconds, 120);
    assert_eq!(settings.api_profiles[1].model, "whisper-large-v3");
}

#[test]
fn default_settings_are_already_normalized() {
    assert_eq!(AppSettings::default().normalized(), AppSettings::default());
}

#[test]
fn default_active_profile_is_ai2npu_without_normalization() {
    let settings = AppSettings::default();

    assert_eq!(settings.active_profile().name, "ai2npu");
    assert_eq!(settings.active_profile().base_url, "http://localhost:9555");
    assert_eq!(settings.active_profile().model, "openai/whisper-large-v3-turbo");
}

#[test]
fn active_profile_falls_back_to_ai2npu_when_profiles_are_empty() {
    let settings = AppSettings {
        api_profiles: Vec::new(),
        active_api_profile_id: "missing".to_string(),
        ..AppSettings::default()
    };

    assert_eq!(settings.active_profile().name, "ai2npu");
    assert_eq!(settings.active_profile().base_url, "http://localhost:9555");
    assert_eq!(settings.active_profile().model, "openai/whisper-large-v3-turbo");
}

#[test]
fn default_hotkeys_and_language_match_spec() {
    let settings = AppSettings::default().normalized();

    assert_eq!(settings.hotkey, "Ctrl+Space");
    assert_eq!(settings.ui_language, AppLanguage::Russian);
    assert_eq!(settings.recording_mode, RecordingMode::Toggle);
}

#[test]
fn invalid_hotkeys_fall_back_to_defaults() {
    let settings = AppSettings {
        hotkey: "Unknown+Key".to_string(),
        ..AppSettings::default()
    }
    .normalized();

    assert_eq!(settings.hotkey, "Ctrl+Space");
}

#[test]
fn hotkeys_are_canonicalized_during_normalization() {
    let settings = AppSettings {
        hotkey: "space+ctrl".to_string(),
        ..AppSettings::default()
    }
    .normalized();

    assert_eq!(settings.hotkey, "Ctrl+Space");
}

#[test]
fn partial_settings_file_normalizes_profiles() {
    let file = AppSettingsFile {
        settings_version: 3,
        hotkey: " Alt+Space ".to_string(),
        ..AppSettingsFile::default()
    };

    let settings = file.into_settings();

    assert_eq!(settings.settings_version, 8);
    assert_eq!(settings.hotkey, "Alt+Space");
    assert_eq!(settings.active_profile().name, "ai2npu");
    assert!(settings.api_profiles.iter().any(|profile| profile.name == "groq"));
}

#[test]
fn legacy_top_level_profile_values_migrate_when_profiles_are_missing() {
    let file = AppSettingsFile {
        settings_version: 7,
        active_api_profile_id: String::new(),
        temperature_tenths: Some(7),
        request_timeout_seconds: Some(45),
        ..AppSettingsFile::default()
    };

    let settings = file.into_settings();

    assert_eq!(settings.active_profile().temperature_tenths, 7);
    assert_eq!(settings.active_profile().request_timeout_seconds, 45);
}

#[test]
fn legacy_values_are_ignored_when_profiles_exist() {
    let file = AppSettingsFile {
        active_api_profile_id: "remote".to_string(),
        api_profiles: Some(vec![profile("remote", "Remote", "https://example.test/openai/", 42, 1)]),
        temperature_tenths: Some(9),
        request_timeout_seconds: Some(999),
        recording_mode: RecordingMode::Hold,
        ui_language: AppLanguage::English,
        ..AppSettingsFile::default()
    };

    let settings = file.into_settings();

    assert_eq!(settings.active_profile().id, "remote");
    assert_eq!(settings.active_profile().base_url, "https://example.test/openai/");
    assert_eq!(settings.active_profile().temperature_tenths, 10);
    assert_eq!(settings.active_profile().request_timeout_seconds, 5);
    assert_eq!(settings.recording_mode, RecordingMode::Hold);
    assert_eq!(settings.ui_language, AppLanguage::English);
}

#[test]
fn settings_file_enums_decode_numbers_and_names() {
    assert_eq!(RecordingMode::from_number(2), Some(RecordingMode::SilenceTimeout));
    assert_eq!(RecordingMode::from_number(3), None);
    assert_eq!(RecordingMode::from_signed(-1), Err(EnumNumberError::Negative));
    assert_eq!(RecordingMode::from_signed(9), Err(EnumNumberError::Unsupported));
    assert_eq!(RecordingMode::from_signed(1), Ok(RecordingMode::Hold));
    assert_eq!(RecordingMode::from_name("Hold"), Some(RecordingMode::Hold));
    assert_eq!(RecordingMode::from_name("hold"), None);
    assert_eq!(RecordingMode::SilenceTimeout.name(), "SilenceTimeout");
    assert_eq!(AppLanguage::from_number(1), Some(AppLanguage::English));
    assert_eq!(AppLanguage::from_signed(-4), Err(EnumNumberError::Negative));
    assert_eq!(AppLanguage::from_name("Russian"), Some(AppLanguage::Russian));
    assert_eq!(AppLanguage::from_name("German"), None);
    assert_eq!(AppLanguage::English.name(), "English");
}

#[test]
fn profile_settings_are_clamped_during_normalization() {
    let settings = AppSettings {
        api_profiles: vec![profile("custom", "custom", "https://example.test/openai/", 42, 1)],
        active_api_profile_id: "custom".to_string(),
        silence_timeout_milliseconds: 50,
        max_recording_seconds: 0,
        ..AppSettings::default()
    };

    let settings = settings.normalized();

    assert_eq!(settings.active_profile().temperature_tenths, 10);
    assert_eq!(settings.active_profile().request_timeout_seconds, 5);
    assert_eq!(settings.silence_timeout_milliseconds, 100);
    assert_eq!(settings.max_recording_seconds, 1);
}

#[test]
fn global_settings_are_clamped_during_normalization() {
    let settings = AppSettings {
        silence_threshold_percent: 250,
        silence_timeout_milliseconds: 99_999,
        max_recording_seconds: 99_999,
        delay_before_paste_milliseconds: 99_999,
        delay_before_clipboard_restore_milliseconds: 99_999,
        launch_minimized_to_tray: false,
        show_floating_recording_window: false,
        log_level: "Verbose".to_string(),
        ..AppSettings::default()
    }
    .normalized();

    assert_eq!(settings.silence_threshold_percent, 100);
    assert_eq!(settings.silence_timeout_milliseconds, 30_000);
    assert_eq!(settings.max_recording_seconds, 3600);
    assert_eq!(settings.delay_before_paste_milliseconds, 5000);
    assert_eq!(settings.delay_before_clipboard_restore_milliseconds, 30_000);
    assert!(settings.launch_minimized_to_tray);
    assert!(settings.show_floating_recording_window);
    assert_eq!(settings.log_level, "Information");
}

#[test]
fn normalization_preserves_existing_profile_order_after_rename() {
    let settings = AppSettings {
        active_api_profile_id: "ai2npu".to_string(),
        api_profiles: vec![
            profile("custom", "Custom", "https://example.test/openai/", 2, 120),
            profile("ai2npu", "Local NPU", "http://localhost:9555", 2, 120),
            profile("groq", "groq", "https://api.groq.com/openai/", 2, 120),
        ],
        ..AppSettings::default()
    }
    .normalized();

    let ids = settings
        .api_profiles
        .iter()
        .map(|profile| profile.id.as_str())
        .collect::<Vec<_>>();

    assert_eq!(ids, ["custom", "ai2npu", "groq"]);
    assert_eq!(settings.active_profile().name, "Local NPU");
}

#[test]
fn normalization_makes_profile_names_visible_and_unique() {
    let settings = AppSettings {
        active_api_profile_id: "one".to_string(),
        api_profiles: vec![
            profile("one", "Duplicate", "https://one.example/openai/", 2, 120),
            profile("two", " duplicate ", "https://two.example/openai/", 2, 120),
            profile("blank-id", "   ", "https://blank.example/openai/", 2, 120),
        ],
        ..AppSettings::default()
    }
    .normalized();

    let names = settings
        .api_profiles
        .iter()
        .map(|profile| profile.name.as_str())
        .collect::<Vec<_>>();

    assert_eq!(names[0..3], ["Duplicate", "duplicate (2)", "blank-id"]);
}

#[test]
fn normalization_adds_missing_builtins_and_fixes_active_id() {
    let settings = AppSettings {
        active_api_profile_id: "gone".to_string(),
        api_profiles: vec![profile("", "", "https://x.example/", 2, 120)],
        ..AppSettings::default()
    }
    .normalized();

    let names = settings
        .api_profiles
        .iter()
        .map(|profile| profile.name.as_str())
        .collect::<Vec<_>>();
    assert_eq!(names, ["profile-1", "ai2npu", "groq"]);
    assert_eq!(settings.active_api_profile_id, "ai2npu");
}

#[test]
fn secret_payload_roundtrip_preserves_profile_keys() {
    let mut keys = ApiKeys::new();
    keys.insert("profile-a".to_string(), "sk-a".to_string());
    keys.insert("profile-b".to_string(), "sk-b".to_string());

    let encoded = serialize_keys(&keys).unwrap();
    let decoded = deserialize_keys(&encoded).unwrap();

    assert_eq!(decoded.len(), 2);
    assert_eq!(decoded.get("profile-a"), Some(&"sk-a".to_string()));
    assert_eq!(decoded.get("profile-b"), Some(&"sk-b".to_string()));
    assert_eq!(encoded, br#"{"profile-a":"sk-a","profile-b":"sk-b"}"#.to_vec());
}

#[test]
fn plain_secret_payload_becomes_default_key() {
    let decoded = deserialize_keys(b"  sk-plain").unwrap();
    assert_eq!(decoded.len(), 1);
    assert_eq!(decoded.get("default"), Some(&"  sk-plain".to_string()));

    let json = deserialize_keys(b" \n {\"groq\":\"g\"}").unwrap();
    assert_eq!(json.get("groq"), Some(&"g".to_string()));
}

#[test]
fn bad_secret_payloads_are_errors() {
    assert!(matches!(deserialize_keys(&[0xff, 0xfe]), Err(SecretsError::InvalidUtf8(_))));
    assert!(matches!(deserialize_keys(b"{not json"), Err(SecretsError::Json(_))));
}

#[test]
fn missing_api_key_file_loads_empty_map() {
    let keys = ApiKeys::new();
    assert!(keys.is_empty());
    let decoded = deserialize_keys(&serialize_keys(&keys).unwrap()).unwrap();
    assert!(decoded.is_empty());
}

#[test]
fn api_keys_replace_and_remove() {
    let mut keys = ApiKeys::new();
    keys.insert("a".to_string(), "1".to_string());
    keys.insert("a".to_string(), "2".to_string());
    assert_eq!(keys.len(), 1);
    assert_eq!(keys.get("a"), Some(&"2".to_string()));
    keys.remove("a");
    assert!(keys.is_empty());
    let copy = keys.duplicate();
    assert!(copy.is_empty());
}

#[test]
fn normalizing_again_changes_nothing() {
    let mut settings = AppSettings::default();
    settings.hotkey = "space+ctrl".to_string();
    settings.silence_threshold_percent = 250;
    settings.log_level = "verbose".to_string();
    settings.active_api_profile_id = "missing".to_string();
    settings.api_profiles = vec![
        profile("one", "  Work  ", "https://example.test", 14, 1),
        profile("two", "work", "https://example.test", -3, 9000),
        profile("", "", "https://example.test", 5, 60),
    ];
    let once = settings.normalized();
    let twice = once.clone().normalized();
    assert_eq!(twice, once);
    assert_eq!(once.api_profiles[0].name, "Work");
    assert_eq!(once.api_profiles[1].name, "work (2)");
    assert_eq!(once.api_profiles[2].name, "profile-3");
}

#[test]
fn normalizing_default_settings_again_changes_nothing() {
    let once = AppSettings::default().normalized();
    assert_eq!(once.clone().normalized(), once);
}

#[test]
fn stored_key_is_used_and_removed_key_falls_back() {
    let mut keys = ApiKeys::new();
    keys.insert("default".to_string(), "fallback".to_string());
    keys.insert("groq".to_string(), "groq-key".to_string());
    assert_eq!(voiceinsert::secrets::api_key_for_profile(&keys, "groq"), "groq-key");
    assert_eq!(voiceinsert::secrets::api_key_for_profile(&keys, "ai2npu"), "fallback");
    keys.remove("groq");
    assert_eq!(voiceinsert::secrets::api_key_for_profile(&keys, "groq"), "fallback");
    keys.remove("default");
    assert_eq!(voiceinsert::secrets::api_key_for_profile(&keys, "groq"), "");
}

#[test]
fn normalization_keeps_profiles_and_appends_only_missing_builtins() {
    let mut settings = AppSettings::default();
    settings.api_profiles = vec![
        profile("mine", "GROQ", "https://example.test", 2, 60),
        profile("other", "Other", "https://example.test", 2, 60),
    ];
    let ids: Vec<String> = settings.clone().normalized().api_profiles.into_iter().map(|p| p.id).collect();
    assert_eq!(ids, vec!["mine", "other", "ai2npu"]);

    settings.api_profiles = vec![profile("x", "ai2npu", "https://example.test", 2, 60)];
    let ids: Vec<String> = settings.normalized().api_profiles.into_iter().map(|p| p.id).collect();
    assert_eq!(ids, vec!["x", "groq"]);
}
