//! Localized user-facing texts.
use crate::settings::AppLanguage;
use vstd::prelude::*;

verus! {

/// The user-facing texts of one UI language.
#[derive(Clone, Copy, Debug)]
pub struct Texts {
    pub settings: &'static str,
    pub exit: &'static str,
    pub recording: &'static str,
    pub transcribing: &'static str,
    pub inserting: &'static str,
    pub error: &'static str,
    pub settings_saved: &'static str,
    pub models_loading: &'static str,
    pub models_loaded: &'static str,
    pub api_profile_added: &'static str,
    pub api_profile_deleted: &'static str,
    pub api_profile_selected: &'static str,
    pub api_profile_required: &'static str,
    pub no_speech_detected: &'static str,
    pub transcription_cancelled: &'static str,
}

/// [`Texts`] as mathematical values.
pub struct TextsView {
    pub settings: Seq<char>,
    pub exit: Seq<char>,
    pub recording: Seq<char>,
    pub transcribing: Seq<char>,
    pub inserting: Seq<char>,
    pub error: Seq<char>,
    pub settings_saved: Seq<char>,
    pub models_loading: Seq<char>,
    pub models_loaded: Seq<char>,
    pub api_profile_added: Seq<char>,
    pub api_profile_deleted: Seq<char>,
    pub api_profile_selected: Seq<char>,
    pub api_profile_required: Seq<char>,
    pub no_speech_detected: Seq<char>,
    pub transcription_cancelled: Seq<char>,
}

impl View for Texts {
    type V = TextsView;

    open spec fn view(&self) -> TextsView {
        TextsView {
            settings: self.settings@,
            exit: self.exit@,
            recording: self.recording@,
            transcribing: self.transcribing@,
            inserting: self.inserting@,
            error: self.error@,
            settings_saved: self.settings_saved@,
            models_loading: self.models_loading@,
            models_loaded: self.models_loaded@,
            api_profile_added: self.api_profile_added@,
            api_profile_deleted: self.api_profile_deleted@,
            api_profile_selected: self.api_profile_selected@,
            api_profile_required: self.api_profile_required@,
            no_speech_detected: self.no_speech_detected@,
            transcription_cancelled: self.transcription_cancelled@,
        }
    }
}

/// The texts of `language`.
pub open spec fn texts_of(language: AppLanguage) -> TextsView {
    match language {
        AppLanguage::Russian => TextsView {
            settings: "Настройки"@,
            exit: "Выход"@,
            recording: "Запись"@,
            transcribing: "Распознавание"@,
            inserting: "Вставка"@,
            error: "Ошибка"@,
            settings_saved: "Настройки сохранены."@,
            models_loading: "Загрузка моделей..."@,
            models_loaded: "Модели загружены."@,
            api_profile_added: "API профиль добавлен."@,
            api_profile_deleted: "API профиль удалён."@,
            api_profile_selected: "API профиль выбран."@,
            api_profile_required: "Нужен хотя бы один API профиль."@,
            no_speech_detected: "Речь не обнаружена."@,
            transcription_cancelled: "Распознавание отменено."@,
        },
        AppLanguage::English => TextsView {
            settings: "Settings"@,
            exit: "Exit"@,
            recording: "Recording"@,
            transcribing: "Transcribing"@,
            inserting: "Inserting"@,
            error: "Error"@,
            settings_saved: "Settings saved."@,
            models_loading: "Loading models..."@,
            models_loaded: "Models loaded."@,
            api_profile_added: "API profile added."@,
            api_profile_deleted: "API profile deleted."@,
            api_profile_selected: "API profile selected."@,
            api_profile_required: "At least one API profile is required."@,
            no_speech_detected: "No speech detected."@,
            transcription_cancelled: "Transcription cancelled."@,
        },
    }
}

/// The user-facing texts of `language`.
pub fn texts(language: AppLanguage) -> (t: Texts)
    ensures
        t@ == texts_of(language),
{
    match language {
        AppLanguage::Russian => Texts {
            settings: "Настройки",
            exit: "Выход",
            recording: "Запись",
            transcribing: "Распознавание",
            inserting: "Вставка",
            error: "Ошибка",
            settings_saved: "Настройки сохранены.",
            models_loading: "Загрузка моделей...",
            models_loaded: "Модели загружены.",
            api_profile_added: "API профиль добавлен.",
            api_profile_deleted: "API профиль удалён.",
            api_profile_selected: "API профиль выбран.",
            api_profile_required: "Нужен хотя бы один API профиль.",
            no_speech_detected: "Речь не обнаружена.",
            transcription_cancelled: "Распознавание отменено.",
        },
        AppLanguage::English => Texts {
            settings: "Settings",
            exit: "Exit",
            recording: "Recording",
            transcribing: "Transcribing",
            inserting: "Inserting",
            error: "Error",
            settings_saved: "Settings saved.",
            models_loading: "Loading models...",
            models_loaded: "Models loaded.",
            api_profile_added: "API profile added.",
            api_profile_deleted: "API profile deleted.",
            api_profile_selected: "API profile selected.",
            api_profile_required: "At least one API profile is required.",
            no_speech_detected: "No speech detected.",
            transcription_cancelled: "Transcription cancelled.",
        },
    }
}


} // verus!
