use voiceinsert::autostart::{autostart_command, registry_string_bytes, wide_null, RUN_KEY, VALUE_NAME};
use voiceinsert::border_indicator::{
    border_sides, color_ref, window_class_name, BorderIndicatorColor, BorderIndicatorState,
    BORDER_WIDTH,
};
use voiceinsert::clipboard::{
    ctrl_v_key_sequence, plan_insert_actions, ClipboardInserter, InsertAction, Key, KeyAction,
};
use voiceinsert::logging::{
    available_log_name, legacy_log_target_name, log_filter_for_level, should_delete_log_file,
    LOG_RETENTION_SECONDS,
};
use voiceinsert::overlay::{overlay_position, WorkArea};
use voiceinsert::settings::AppLanguage;
use voiceinsert::tray::{
    command_for_menu_id, default_icon_rgba, TrayCommand, TrayMenuLabels, TrayService, TrayState,
    EXIT_MENU_ID, SETTINGS_MENU_ID,
};

const SECOND: i128 = 1_000_000_000;
const DAY: i128 = 24 * 60 * 60 * SECOND;

#[test]
fn wide_null_appends_terminator() {
    let value = wide_null("VoiceInsert");

    assert_eq!(value.last(), Some(&0));
}

#[test]
fn wide_null_encodes_utf16() {
    let text = "Запуск 🎙";
    let mut expected: Vec<u16> = text.encode_utf16().collect();
    expected.push(0);
    assert_eq!(wide_null(text), expected);
}

#[test]
fn autostart_value_is_quoted_utf16_le() {
    assert_eq!(RUN_KEY, r"Software\Microsoft\Windows\CurrentVersion\Run");
    assert_eq!(VALUE_NAME, "VoiceInsert");
    let command = autostart_command(r"C:\Apps\VoiceInsert.exe");
    assert_eq!(command, r#""C:\Apps\VoiceInsert.exe""#);
    let bytes = registry_string_bytes("A");
    assert_eq!(bytes, vec![0x41, 0, 0, 0]);
}

#[test]
fn planned_insert_actions_skip_focus_for_zero_window() {
    let inserter = ClipboardInserter {
        restore_clipboard: true,
        delay_before_paste_ms: 10,
        delay_before_restore_ms: 20,
    };
    let actions = plan_insert_actions(&inserter, Some(0), true);

    assert_eq!(
        actions,
        vec![
            InsertAction::SleepBeforePaste(10),
            InsertAction::Paste,
            InsertAction::SleepBeforeRestore(20),
            InsertAction::RestoreClipboard
        ]
    );
}

#[test]
fn planned_insert_actions_keep_runtime_order() {
    let inserter = ClipboardInserter {
        restore_clipboard: true,
        delay_before_paste_ms: 15,
        delay_before_restore_ms: 25,
    };

    let actions = plan_insert_actions(&inserter, Some(42), true);

    assert_eq!(
        actions,
        vec![
            InsertAction::SleepBeforePaste(15),
            InsertAction::FocusWindow(42),
            InsertAction::SleepAfterFocus(40),
            InsertAction::Paste,
            InsertAction::SleepBeforeRestore(25),
            InsertAction::RestoreClipboard
        ]
    );
}

#[test]
fn planned_insert_actions_skip_restore_without_previous_text() {
    let inserter = ClipboardInserter {
        restore_clipboard: true,
        delay_before_paste_ms: 0,
        delay_before_restore_ms: 25,
    };
    assert_eq!(
        plan_insert_actions(&inserter, None, false),
        vec![InsertAction::SleepBeforePaste(0), InsertAction::Paste]
    );
    let no_restore = ClipboardInserter {
        restore_clipboard: false,
        ..inserter
    };
    assert_eq!(
        plan_insert_actions(&no_restore, Some(7), true),
        vec![
            InsertAction::SleepBeforePaste(0),
            InsertAction::FocusWindow(7),
            InsertAction::SleepAfterFocus(40),
            InsertAction::Paste
        ]
    );
}

#[test]
fn ctrl_v_key_sequence_presses_and_releases_control_v() {
    assert_eq!(
        ctrl_v_key_sequence(),
        [
            KeyAction::Press(Key::Control),
            KeyAction::Press(Key::V),
            KeyAction::Release(Key::V),
            KeyAction::Release(Key::Control)
        ]
    );
}

#[test]
fn delete_old_logs_after_retention_window() {
    let now = 1_000 * SECOND;
    let modified = now - 8 * DAY;

    assert!(should_delete_log_file(modified, now, (7 * DAY) as u128));
}

#[test]
fn keep_recent_logs_within_retention_window() {
    let now = 1_000 * SECOND;
    let modified = now - 6 * DAY;

    assert!(!should_delete_log_file(modified, now, (7 * DAY) as u128));
}

#[test]
fn logs_from_the_future_are_kept() {
    assert!(!should_delete_log_file(10 * DAY, 0, 0));
    assert_eq!(LOG_RETENTION_SECONDS, 7 * 24 * 60 * 60);
}

#[test]
fn legacy_log_names_are_migrated_to_log_suffix() {
    assert_eq!(
        legacy_log_target_name("voiceinsert.log.2026-07-22").as_deref(),
        Some("voiceinsert.2026-07-22.log")
    );
    assert_eq!(legacy_log_target_name("voiceinsert.2026-07-22.log"), None);
    assert_eq!(legacy_log_target_name("voiceinsert.log."), None);
}

#[test]
fn existing_log_target_uses_legacy_suffix() {
    let taken = vec!["voiceinsert.2026-07-22.log".to_string()];

    assert_eq!(
        available_log_name("voiceinsert.2026-07-22.log", &taken),
        "voiceinsert.2026-07-22.legacy-1.log"
    );
    assert_eq!(
        available_log_name("voiceinsert.2026-07-23.log", &taken),
        "voiceinsert.2026-07-23.log"
    );
}

#[test]
fn legacy_suffix_skips_taken_numbers_and_falls_back() {
    let mut taken = vec![
        "a.log".to_string(),
        "a.legacy-1.log".to_string(),
        "a.legacy-2.log".to_string(),
    ];
    assert_eq!(available_log_name("a.log", &taken), "a.legacy-3.log");
    for k in 3..100 {
        taken.push(format!("a.legacy-{k}.log"));
    }
    assert_eq!(available_log_name("a.log", &taken), "a.legacy.log");
}

#[test]
fn log_levels_map_to_tracing_filters() {
    assert_eq!(log_filter_for_level("Debug"), "debug");
    assert_eq!(log_filter_for_level("Warning"), "warn");
    assert_eq!(log_filter_for_level("Error"), "error");
    assert_eq!(log_filter_for_level("Information"), "info");
    assert_eq!(log_filter_for_level("debug"), "info");
}

#[test]
fn overlay_position_stays_within_work_area() {
    let work_area = WorkArea {
        left: 100,
        top: 50,
        width: 800,
        height: 600,
    };

    assert_eq!(overlay_position(work_area, (240, 120), 24), (636, 506));
    assert_eq!(overlay_position(work_area, (900, 700), 24), (100, 50));
}

#[test]
fn overlay_ignores_negative_margin() {
    let work_area = WorkArea {
        left: 0,
        top: 0,
        width: 100,
        height: 100,
    };
    assert_eq!(overlay_position(work_area, (10, 10), -5), (90, 90));
}

#[test]
fn tray_labels_are_localized() {
    let ru = TrayMenuLabels::for_language(AppLanguage::Russian);
    let en = TrayMenuLabels::for_language(AppLanguage::English);

    assert_eq!(ru.settings, "Настройки");
    assert_eq!(ru.exit, "Выход");
    assert_eq!(en.settings, "Settings");
    assert_eq!(en.exit, "Exit");
}

#[test]
fn tray_service_tracks_state_and_language() {
    let mut tray = TrayService::new(AppLanguage::Russian);
    assert_eq!(tray.state(), TrayState::Idle);
    tray.set_state(TrayState::Recording);
    tray.set_language(AppLanguage::English);
    assert_eq!(tray.state(), TrayState::Recording);
    assert_eq!(tray.labels().exit, "Exit");
}

#[test]
fn tray_menu_ids_map_to_commands() {
    assert_eq!(command_for_menu_id(SETTINGS_MENU_ID), Some(TrayCommand::Settings));
    assert_eq!(command_for_menu_id(EXIT_MENU_ID), Some(TrayCommand::Exit));
    assert_eq!(command_for_menu_id("other"), None);
}

#[test]
fn fallback_icon_is_a_teal_circle() {
    let rgba = default_icon_rgba();
    assert_eq!(rgba.len(), 32 * 32 * 4);
    let pixel = |x: usize, y: usize| &rgba[(y * 32 + x) * 4..(y * 32 + x) * 4 + 4];
    assert_eq!(pixel(15, 15), &[0x51, 0xb3, 0xa2, 0xff]);
    assert_eq!(pixel(0, 0), &[0, 0, 0, 0]);
    assert_eq!(pixel(1, 15), &[0x51, 0xb3, 0xa2, 0xff]);
    assert_eq!(pixel(0, 15), &[0, 0, 0, 0]);
}

#[test]
fn border_covers_the_four_screen_edges() {
    let area = WorkArea {
        left: 0,
        top: 0,
        width: 1920,
        height: 1080,
    };
    assert_eq!(
        border_sides(area, BORDER_WIDTH),
        [
            (0, 0, 1920, 12),
            (0, 1068, 1920, 12),
            (0, 0, 12, 1080),
            (1908, 0, 12, 1080)
        ]
    );
    assert_eq!(color_ref(BorderIndicatorColor::Recording), 0x46c978);
    assert_eq!(color_ref(BorderIndicatorColor::Transcribing), 0x2d8cff);
    assert_eq!(
        window_class_name(BorderIndicatorColor::Recording),
        "VoiceInsertRecordingBorder"
    );
}

#[test]
fn border_is_redrawn_only_for_a_new_color() {
    let mut border = BorderIndicatorState::new();
    assert!(border.show(BorderIndicatorColor::Recording));
    assert!(!border.show(BorderIndicatorColor::Recording));
    assert!(border.show(BorderIndicatorColor::Transcribing));
    border.dismiss();
    assert_eq!(border.visible_color, None);
    assert!(border.show(BorderIndicatorColor::Transcribing));
}
