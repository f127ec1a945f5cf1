//! Settings-window commands: applying an edit to the settings, adding a
//! profile, finding profiles, and the status texts shown afterwards.
use crate::i18n::{texts, texts_of};
use crate::api::endpoints::{
    directory_base, endpoint, names_audio_endpoint, relative_path, url_resolution, EndpointError,
};
use crate::api::models::MODELS_ENDPOINT_PATH;
use crate::hotkeys::matcher::{normalize_hotkey, normalized_hotkey, HotkeyError};
use crate::secrets::{api_key_for_profile, key_for_profile, ApiKeys};
use crate::settings::{
    active_profile_of, first_with_id, has_id, normalized_settings, profile_views, AppLanguage,
    AppSettings, ApiProfile, ProfileView, RecordingMode, SettingsView, AI2NPU_DEFAULT_MODEL,
};
use crate::text::{
    chars_of, decimal, parse_unsigned, parse_unsigned_chars, push_decimal, str_eq, string_from,
    string_of, trim, trim_chars, trim_str,
};
use crate::ui::{model_label, model_label_of, SettingsEdit};
use vstd::prelude::*;

verus! {

/// [`SettingsEdit`] as mathematical values.
pub struct EditView {
    pub profile_name: Seq<char>,
    pub base_url: Seq<char>,
    pub api_key: Seq<char>,
    pub model: Seq<char>,
    pub temperature_tenths: Option<int>,
    pub request_timeout_seconds: Seq<char>,
    pub transcription_hotkey: Seq<char>,
    pub recording_mode: Seq<char>,
    pub silence_threshold_percent: Seq<char>,
    pub silence_timeout_milliseconds: Seq<char>,
    pub max_recording_seconds: Seq<char>,
    pub start_with_windows: bool,
    pub ui_language: Seq<char>,
    pub enable_sounds: bool,
    pub restore_clipboard_content: bool,
    pub delay_before_paste_milliseconds: Seq<char>,
    pub delay_before_clipboard_restore_milliseconds: Seq<char>,
    pub log_level: Seq<char>,
}

impl View for SettingsEdit {
    type V = EditView;

    open spec fn view(&self) -> EditView {
        EditView {
            profile_name: self.profile_name@,
            base_url: self.base_url@,
            api_key: self.api_key@,
            model: self.model@,
            temperature_tenths: match self.temperature_tenths {
                Some(t) => Some(t as int),
                None => None,
            },
            request_timeout_seconds: self.request_timeout_seconds@,
            transcription_hotkey: self.transcription_hotkey@,
            recording_mode: self.recording_mode@,
            silence_threshold_percent: self.silence_threshold_percent@,
            silence_timeout_milliseconds: self.silence_timeout_milliseconds@,
            max_recording_seconds: self.max_recording_seconds@,
            start_with_windows: self.start_with_windows,
            ui_language: self.ui_language@,
            enable_sounds: self.enable_sounds,
            restore_clipboard_content: self.restore_clipboard_content,
            delay_before_paste_milliseconds: self.delay_before_paste_milliseconds@,
            delay_before_clipboard_restore_milliseconds: self.delay_before_clipboard_restore_milliseconds@,
            log_level: self.log_level@,
        }
    }
}

// ---------------------------------------------------------------------------
// Reading the settings window
// ---------------------------------------------------------------------------

/// The number typed in `value` (trimmed), or `fallback` when it is not an
/// unsigned number no larger than `max`.
pub open spec fn parsed_or(value: Seq<char>, max: nat, fallback: nat) -> nat {
    match parse_unsigned(trim(value), max) {
        Some(v) => v,
        None => fallback,
    }
}

pub open spec fn recording_mode_from_label(value: Seq<char>) -> RecordingMode {
    let t = trim(value);
    if t == "Hold"@ || t == "Удержание"@ {
        RecordingMode::Hold
    } else if t == "SilenceTimeout"@ || t == "Тишина"@ {
        RecordingMode::SilenceTimeout
    } else {
        RecordingMode::Toggle
    }
}

pub open spec fn language_from_label(value: Seq<char>) -> AppLanguage {
    if trim(value) == "English"@ {
        AppLanguage::English
    } else {
        AppLanguage::Russian
    }
}

pub open spec fn log_level_from_label(value: Seq<char>) -> Seq<char> {
    let t = trim(value);
    if t == "Debug"@ || t == "Отладка"@ {
        "Debug"@
    } else if t == "Warning"@ || t == "Предупреждения"@ {
        "Warning"@
    } else if t == "Error"@ || t == "Ошибки"@ {
        "Error"@
    } else {
        "Information"@
    }
}

/// The active profile after the profile fields of the edit are applied.
pub open spec fn edited_profile(p: ProfileView, e: EditView) -> ProfileView {
    ProfileView {
        name: trim(e.profile_name),
        base_url: trim(e.base_url),
        model: trim(e.model),
        temperature_tenths: match e.temperature_tenths {
            Some(t) => t,
            None => p.temperature_tenths,
        },
        request_timeout_seconds: parsed_or(
            e.request_timeout_seconds,
            u64::MAX as nat,
            p.request_timeout_seconds,
        ),
        ..p
    }
}

/// The profiles with the edit applied to the one whose id is active.
pub open spec fn edited_profiles(ps: Seq<ProfileView>, active: Seq<char>, e: EditView) -> Seq<
    ProfileView,
> {
    if has_id(ps, active) {
        let i = first_with_id(ps, active);
        ps.update(i, edited_profile(ps[i], e))
    } else {
        ps
    }
}

/// Settings `s` with the settings-window edit `e` applied.
pub open spec fn applied_edit(s: SettingsView, e: EditView) -> SettingsView {
    SettingsView {
        hotkey: trim(e.transcription_hotkey),
        recording_mode: recording_mode_from_label(e.recording_mode),
        silence_threshold_percent: parsed_or(e.silence_threshold_percent, 255, s.silence_threshold_percent),
        silence_timeout_milliseconds: parsed_or(
            e.silence_timeout_milliseconds,
            u64::MAX as nat,
            s.silence_timeout_milliseconds,
        ),
        max_recording_seconds: parsed_or(e.max_recording_seconds, u64::MAX as nat, s.max_recording_seconds),
        start_with_windows: e.start_with_windows,
        ui_language: language_from_label(e.ui_language),
        launch_minimized_to_tray: true,
        show_floating_recording_window: true,
        enable_sounds: e.enable_sounds,
        restore_clipboard_content: e.restore_clipboard_content,
        delay_before_paste_milliseconds: parsed_or(
            e.delay_before_paste_milliseconds,
            u64::MAX as nat,
            s.delay_before_paste_milliseconds,
        ),
        delay_before_clipboard_restore_milliseconds: parsed_or(
            e.delay_before_clipboard_restore_milliseconds,
            u64::MAX as nat,
            s.delay_before_clipboard_restore_milliseconds,
        ),
        log_level: log_level_from_label(e.log_level),
        api_profiles: edited_profiles(s.api_profiles, s.active_api_profile_id, e),
        ..s
    }
}

fn parse_or_keep(value: &str, max: u64, fallback: u64) -> (r: u64)
    requires
        fallback <= max,
    ensures
        r as nat == parsed_or(value@, max as nat, fallback as nat),
        r <= max,
{
    let cs = chars_of(value);
    let t = trim_chars(cs.as_slice());
    match parse_unsigned_chars(t.as_slice(), max) {
        Some(v) => v,
        None => fallback,
    }
}

fn parse_or_keep_u8(value: &str, fallback: u8) -> (r: u8)
    ensures
        r as nat == parsed_or(value@, 255, fallback as nat),
{
    parse_or_keep(value, 255, fallback as u64) as u8
}

/// The recording mode a mode label (English or Russian) stands for; toggle
/// by default.
pub fn parse_recording_mode(value: &str) -> (m: RecordingMode)
    ensures
        m == recording_mode_from_label(value@),
{
    let t = trim_str(value);
    let t = t.as_str();
    if str_eq(t, "Hold") || str_eq(t, "Удержание") {
        RecordingMode::Hold
    } else if str_eq(t, "SilenceTimeout") || str_eq(t, "Тишина") {
        RecordingMode::SilenceTimeout
    } else {
        RecordingMode::Toggle
    }
}

/// The UI language a language label stands for; Russian by default.
pub fn parse_language(value: &str) -> (l: AppLanguage)
    ensures
        l == language_from_label(value@),
{
    let t = trim_str(value);
    if str_eq(t.as_str(), "English") {
        AppLanguage::English
    } else {
        AppLanguage::Russian
    }
}

/// The log level a level label (English or Russian) stands for; `Information`
/// by default.
pub fn parse_log_level(value: &str) -> (l: &'static str)
    ensures
        l@ == log_level_from_label(value@),
{
    let t = trim_str(value);
    let t = t.as_str();
    if str_eq(t, "Debug") || str_eq(t, "Отладка") {
        "Debug"
    } else if str_eq(t, "Warning") || str_eq(t, "Предупреждения") {
        "Warning"
    } else if str_eq(t, "Error") || str_eq(t, "Ошибки") {
        "Error"
    } else {
        "Information"
    }
}

/// Applies a settings-window edit: the global fields come from the edit (a
/// number that does not parse keeps the old value), and the profile fields
/// are written to the active profile.
pub fn apply_settings_edit(settings: AppSettings, edit: SettingsEdit) -> (s: AppSettings)
    ensures
        s@ == applied_edit(settings@, edit@),
{
    let mut settings = settings;
    let ghost s0 = settings@;
    settings.hotkey = trim_str(edit.transcription_hotkey.as_str());
    settings.recording_mode = parse_recording_mode(edit.recording_mode.as_str());
    settings.silence_threshold_percent = parse_or_keep_u8(
        edit.silence_threshold_percent.as_str(),
        settings.silence_threshold_percent,
    );
    settings.silence_timeout_milliseconds = parse_or_keep(
        edit.silence_timeout_milliseconds.as_str(),
        u64::MAX,
        settings.silence_timeout_milliseconds,
    );
    settings.max_recording_seconds = parse_or_keep(
        edit.max_recording_seconds.as_str(),
        u64::MAX,
        settings.max_recording_seconds,
    );
    settings.start_with_windows = edit.start_with_windows;
    settings.ui_language = parse_language(edit.ui_language.as_str());
    settings.launch_minimized_to_tray = true;
    settings.show_floating_recording_window = true;
    settings.enable_sounds = edit.enable_sounds;
    settings.restore_clipboard_content = edit.restore_clipboard_content;
    settings.delay_before_paste_milliseconds = parse_or_keep(
        edit.delay_before_paste_milliseconds.as_str(),
        u64::MAX,
        settings.delay_before_paste_milliseconds,
    );
    settings.delay_before_clipboard_restore_milliseconds = parse_or_keep(
        edit.delay_before_clipboard_restore_milliseconds.as_str(),
        u64::MAX,
        settings.delay_before_clipboard_restore_milliseconds,
    );
    settings.log_level = string_from(parse_log_level(edit.log_level.as_str()));
    let ghost ps = settings@.api_profiles;
    match position_of_profile_id(&settings.api_profiles, settings.active_api_profile_id.as_str()) {
        Some(i) => {
            let old = &settings.api_profiles[i];
            let edited = ApiProfile {
                id: old.id.clone(),
                name: trim_str(edit.profile_name.as_str()),
                base_url: trim_str(edit.base_url.as_str()),
                model: trim_str(edit.model.as_str()),
                language: old.language.clone(),
                temperature_tenths: match edit.temperature_tenths {
                    Some(t) => t,
                    None => old.temperature_tenths,
                },
                request_timeout_seconds: parse_or_keep(
                    edit.request_timeout_seconds.as_str(),
                    u64::MAX,
                    old.request_timeout_seconds,
                ),
            };
            proof {
                assert(ps[i as int] == settings.api_profiles@[i as int]@);
                assert(edited@ == edited_profile(ps[i as int], edit@));
            }
            settings.api_profiles.set(i, edited);
            proof {
                assert(crate::settings::profile_views(settings.api_profiles@) =~= ps.update(
                    i as int,
                    edited_profile(ps[i as int], edit@),
                ));
            }
        },
        None => {},
    }
    settings
}

fn position_of_profile_id(ps: &Vec<ApiProfile>, id: &str) -> (r: Option<usize>)
    ensures
        match r {
            Some(i) => has_id(crate::settings::profile_views(ps@), id@) && i == first_with_id(
                crate::settings::profile_views(ps@),
                id@,
            ) && i < ps.len(),
            None => !has_id(crate::settings::profile_views(ps@), id@),
        },
{
    crate::settings::position_of_id(ps, id)
}

// ---------------------------------------------------------------------------
// Profiles
// ---------------------------------------------------------------------------

/// The id `profile-K`.
pub open spec fn numbered_profile_id(k: nat) -> Seq<char> {
    "profile-"@ + decimal(k)
}

/// The first `K` from `k` on whose id `profile-K` is free, trying at most
/// `fuel + 1` numbers.
pub open spec fn free_profile_number(ps: Seq<ProfileView>, k: nat, fuel: nat) -> nat
    decreases fuel,
{
    if fuel == 0 || !has_id(ps, numbered_profile_id(k)) {
        k
    } else {
        free_profile_number(ps, k + 1, (fuel - 1) as nat)
    }
}

/// The profile that "add profile" creates after `ps`: `profile-K` for the
/// first free `K` from `ps.len() + 1` on, pointing at the local server.
pub open spec fn next_profile(ps: Seq<ProfileView>) -> ProfileView {
    let id = numbered_profile_id(free_profile_number(ps, ps.len() + 1, ps.len()));
    ProfileView {
        id,
        name: id,
        base_url: "http://localhost:9555"@,
        model: AI2NPU_DEFAULT_MODEL@,
        language: Seq::empty(),
        temperature_tenths: 2,
        request_timeout_seconds: 120,
    }
}

/// A new profile for the settings window's "add profile" command.
pub fn next_api_profile(existing: &Vec<ApiProfile>) -> (p: ApiProfile)
    requires
        existing.len() < u64::MAX / 4,
    ensures
        p@ == next_profile(crate::settings::profile_views(existing@)),
{
    let ghost ps = crate::settings::profile_views(existing@);
    let mut index: u64 = (existing.len() as u64) + 1;
    let mut fuel: usize = existing.len();
    loop
        invariant
            index as nat + fuel as nat == 2 * existing.len() + 1,
            existing.len() < u64::MAX / 4,
            ps == crate::settings::profile_views(existing@),
            free_profile_number(ps, (existing.len() + 1) as nat, existing.len() as nat) == free_profile_number(
                ps,
                index as nat,
                fuel as nat,
            ),
        decreases fuel,
    {
        let mut id = string_from("profile-");
        push_decimal(&mut id, index);
        if fuel == 0 || position_of_profile_id(existing, id.as_str()).is_none() {
            return ApiProfile {
                id: id.clone(),
                name: id,
                base_url: string_from("http://localhost:9555"),
                model: string_from(AI2NPU_DEFAULT_MODEL),
                language: String::new(),
                temperature_tenths: 2,
                request_timeout_seconds: 120,
            };
        }
        index = index + 1;
        fuel = fuel - 1;
    }
}

/// The index of the first profile named exactly `name`.
pub open spec fn first_with_name(ps: Seq<ProfileView>, name: Seq<char>) -> Option<int>
    decreases ps.len(),
{
    if ps.len() == 0 {
        None
    } else if ps[0].name == name {
        Some(0)
    } else {
        match first_with_name(ps.drop_first(), name) {
            Some(i) => Some(i + 1),
            None => None,
        }
    }
}

proof fn lemma_first_with_name_at(ps: Seq<ProfileView>, name: Seq<char>, i: int)
    requires
        0 <= i <= ps.len(),
        forall|k: int| 0 <= k < i ==> (#[trigger] ps[k]).name != name,
        i < ps.len() ==> ps[i].name == name,
    ensures
        first_with_name(ps, name) == (if i < ps.len() {
            Some(i)
        } else {
            None::<int>
        }),
    decreases i,
{
    if i > 0 {
        let t = ps.drop_first();
        assert forall|k: int| 0 <= k < i - 1 implies (#[trigger] t[k]).name != name by {
            assert(t[k] == ps[k + 1]);
        }
        if i < ps.len() {
            assert(t[i - 1] == ps[i]);
        }
        lemma_first_with_name_at(t, name, i - 1);
        assert(ps[0].name != name);
    }
}

/// The id of the profile whose visible name is `profile_name` (trimmed).
pub fn profile_id_by_name(settings: &AppSettings, profile_name: &str) -> (r: Option<String>)
    ensures
        match first_with_name(settings@.api_profiles, trim(profile_name@)) {
            Some(i) => r is Some && r->0@ == settings@.api_profiles[i].id,
            None => r is None,
        },
{
    let name = trim_str(profile_name);
    let ghost ps = settings@.api_profiles;
    let mut i: usize = 0;
    while i < settings.api_profiles.len()
        invariant
            0 <= i <= settings.api_profiles.len(),
            ps == settings@.api_profiles,
            name@ == trim(profile_name@),
            forall|k: int| 0 <= k < i ==> (#[trigger] ps[k]).name != name@,
        decreases settings.api_profiles.len() - i,
    {
        proof {
            assert(ps[i as int] == settings.api_profiles@[i as int]@);
        }
        if str_eq(settings.api_profiles[i].name.as_str(), name.as_str()) {
            proof {
                lemma_first_with_name_at(ps, name@, i as int);
            }
            let id = settings.api_profiles[i].id.clone();
            proof {
                assert(id@ == ps[i as int].id);
            }
            return Some(id);
        }
        i = i + 1;
    }
    proof {
        lemma_first_with_name_at(ps, name@, i as int);
    }
    None
}

/// Whether switching from `old_profile` to `new_profile` needs a new HTTP
/// client: only a changed request timeout does.
pub fn profile_requires_http_rebuild(old_profile: &ApiProfile, new_profile: &ApiProfile) -> (r: bool)
    ensures
        r == (old_profile@.request_timeout_seconds != new_profile@.request_timeout_seconds),
{
    old_profile.request_timeout_seconds != new_profile.request_timeout_seconds
}

/// The model to request: the trimmed profile model, or the default model.
pub fn model_for_request(model: &str) -> (r: String)
    ensures
        r@ == model_label_of(model@),
{
    model_label(model)
}

/// The trimmed text, or `None` when it is blank.
pub fn non_empty_str(value: &str) -> (r: Option<String>)
    ensures
        match r {
            Some(t) => trim(value@).len() > 0 && t@ == trim(value@),
            None => trim(value@).len() == 0,
        },
{
    let cs = chars_of(value);
    let t = trim_chars(cs.as_slice());
    if t.len() == 0 {
        None
    } else {
        Some(string_of(t.as_slice()))
    }
}

/// The status text shown when the last profile cannot be deleted.
pub fn api_profile_required_status(language: AppLanguage) -> (s: &'static str)
    ensures
        s@ == texts_of(language).api_profile_required,
{
    texts(language).api_profile_required
}

/// The status text shown after the settings were saved.
pub fn settings_saved_status(language: AppLanguage) -> (s: &'static str)
    ensures
        s@ == texts_of(language).settings_saved,
{
    texts(language).settings_saved
}

/// The status text shown while models load.
pub fn models_loading_status(language: AppLanguage) -> (s: &'static str)
    ensures
        s@ == texts_of(language).models_loading,
{
    texts(language).models_loading
}

/// The status text shown once models are loaded.
pub fn models_loaded_status(language: AppLanguage) -> (s: &'static str)
    ensures
        s@ == texts_of(language).models_loaded,
{
    texts(language).models_loaded
}


// ---------------------------------------------------------------------------
// Settings-window commands
// ---------------------------------------------------------------------------

proof fn lemma_first_with_id_bound(ps: Seq<ProfileView>, id: Seq<char>)
    requires
        has_id(ps, id),
    ensures
        0 <= first_with_id(ps, id) < ps.len(),
        ps[first_with_id(ps, id)].id == id,
    decreases ps.len(),
{
    if ps[0].id != id {
        let t = ps.drop_first();
        let j = choose|j: int| 0 <= j < ps.len() && (#[trigger] ps[j]).id == id;
        assert(t[j - 1] == ps[j]);
        lemma_first_with_id_bound(t, id);
        assert(ps[first_with_id(t, id) + 1] == t[first_with_id(t, id)]);
    }
}

proof fn lemma_applied_edit_len(s: SettingsView, e: EditView)
    ensures
        applied_edit(s, e).api_profiles.len() == s.api_profiles.len(),
{
    if has_id(s.api_profiles, s.active_api_profile_id) {
        lemma_first_with_id_bound(s.api_profiles, s.active_api_profile_id);
    }
}

/// Settings with a new profile (see [`next_profile`]) appended and made active.
pub open spec fn with_added_profile(s: SettingsView) -> SettingsView {
    let p = next_profile(s.api_profiles);
    normalized_settings(
        SettingsView { active_api_profile_id: p.id, api_profiles: s.api_profiles.push(p), ..s },
    )
}

/// The "add profile" command: a new profile is appended and becomes the
/// active one, and the settings are normalized.
pub fn add_api_profile(settings: AppSettings) -> (s: AppSettings)
    requires
        settings.api_profiles.len() < 0x1_0000_0000,
    ensures
        s@ == with_added_profile(settings@),
{
    let mut settings = settings;
    let ghost before = settings@;
    let profile = next_api_profile(&settings.api_profiles);
    settings.active_api_profile_id = string_from(profile.id.as_str());
    settings.api_profiles.push(profile);
    proof {
        assert(profile_views(settings.api_profiles@) =~= before.api_profiles.push(
            next_profile(before.api_profiles),
        ));
    }
    settings.normalized()
}

/// The profiles other than the one with `id`.
pub open spec fn without_profile(ps: Seq<ProfileView>, id: Seq<char>) -> Seq<ProfileView> {
    ps.filter(|p: ProfileView| p.id != id)
}

/// Settings without the active profile; the first remaining profile becomes active.
pub open spec fn with_active_deleted(s: SettingsView) -> SettingsView {
    let rest = without_profile(s.api_profiles, s.active_api_profile_id);
    normalized_settings(
        SettingsView {
            api_profiles: rest,
            active_api_profile_id: if rest.len() > 0 {
                rest[0].id
            } else {
                Seq::empty()
            },
            ..s
        },
    )
}

/// The "delete profile" command: with more than one profile, the active
/// profile and its key are removed, the first remaining profile becomes
/// active and the settings are normalized. The last profile is never
/// deleted; then nothing changes and the result is `false`.
pub fn delete_active_api_profile(settings: &mut AppSettings, api_keys: &mut ApiKeys) -> (deleted:
    bool)
    requires
        old(settings).api_profiles.len() < 0x1_0000_0000,
    ensures
        deleted == (old(settings).api_profiles.len() > 1),
        deleted ==> final(settings)@ == with_active_deleted(old(settings)@),
        deleted ==> final(api_keys)@ == old(api_keys)@.remove(old(settings)@.active_api_profile_id),
        !deleted ==> final(settings)@ == old(settings)@,
        !deleted ==> final(api_keys)@ == old(api_keys)@,
{
    if settings.api_profiles.len() <= 1 {
        return false;
    }
    let ghost before = settings@;
    let active = string_from(settings.active_api_profile_id.as_str());
    let ghost pred = |p: ProfileView| p.id != active@;
    let mut kept: Vec<ApiProfile> = Vec::new();
    let mut i: usize = 0;
    while i < settings.api_profiles.len()
        invariant
            i <= settings.api_profiles.len(),
            settings@ == before,
            active@ == before.active_api_profile_id,
            pred == (|p: ProfileView| p.id != active@),
            profile_views(kept@) == before.api_profiles.take(i as int).filter(pred),
            kept.len() <= i,
        decreases settings.api_profiles.len() - i,
    {
        let ghost kept_before = profile_views(kept@);
        proof {
            assert(before.api_profiles.take(i + 1).drop_last() =~= before.api_profiles.take(i as int));
            assert(before.api_profiles.take(i + 1).last() == settings.api_profiles@[i as int]@);
            let x = settings.api_profiles@[i as int]@;
            reveal(Seq::filter);
            assert(pred(x) == (x.id != active@));
            assert(before.api_profiles.take(i + 1).filter(pred) == if pred(x) {
                kept_before.push(x)
            } else {
                kept_before
            });
        }
        if !str_eq(settings.api_profiles[i].id.as_str(), active.as_str()) {
            kept.push(settings.api_profiles[i].duplicate());
            proof {
                assert(profile_views(kept@) =~= kept_before.push(settings.api_profiles@[i as int]@));
            }
        }
        i = i + 1;
    }
    proof {
        assert(before.api_profiles.take(settings.api_profiles.len() as int) =~= before.api_profiles);
    }
    api_keys.remove(active.as_str());
    let first_id = if kept.len() > 0 {
        string_from(kept[0].id.as_str())
    } else {
        String::new()
    };
    proof {
        if kept.len() > 0 {
            assert(profile_views(kept@)[0] == kept@[0]@);
        }
    }
    let mut taken = AppSettings::default();
    std::mem::swap(&mut taken, settings);
    taken.api_profiles = kept;
    taken.active_api_profile_id = first_id;
    *settings = taken.normalized();
    true
}

/// Settings whose active profile is the one named `name`, if it is another one.
pub open spec fn with_selected_profile(s: SettingsView, name: Seq<char>) -> Option<SettingsView> {
    match first_with_name(s.api_profiles, trim(name)) {
        Some(i) => if s.api_profiles[i].id != s.active_api_profile_id {
            Some(
                normalized_settings(
                    SettingsView { active_api_profile_id: s.api_profiles[i].id, ..s },
                ),
            )
        } else {
            None
        },
        None => None,
    }
}

/// The "select profile" command: the profile with the visible name
/// `profile_name` becomes active and the settings are normalized. Selecting
/// the active profile or an unknown name changes nothing and gives `false`.
pub fn select_api_profile(settings: &mut AppSettings, profile_name: &str) -> (changed: bool)
    requires
        old(settings).api_profiles.len() < 0x1_0000_0000,
    ensures
        match with_selected_profile(old(settings)@, profile_name@) {
            Some(s) => changed && final(settings)@ == s,
            None => !changed && final(settings)@ == old(settings)@,
        },
{
    let id = match profile_id_by_name(settings, profile_name) {
        Some(id) => id,
        None => return false,
    };
    if str_eq(id.as_str(), settings.active_api_profile_id.as_str()) {
        return false;
    }
    let mut taken = AppSettings::default();
    std::mem::swap(&mut taken, settings);
    taken.active_api_profile_id = id;
    *settings = taken.normalized();
    true
}

/// Why a settings-window edit was not saved.
#[derive(Debug)]
pub enum SettingsSaveError {
    /// The transcription hotkey is not a valid hotkey.
    Hotkey(HotkeyError),
    /// The base URL gives no models endpoint.
    Endpoint(EndpointError),
}

impl SettingsSaveError {
    /// The message shown in the settings window: the hotkey error's message,
    /// or the endpoint error's.
    pub fn message(&self) -> (m: String)
        ensures
            self matches SettingsSaveError::Hotkey(e) ==> m@ == crate::hotkeys::matcher::hotkey_error_message(e@),
            self matches SettingsSaveError::Endpoint(EndpointError::AudioEndpointInBase) ==> m@
                == "Base URL must not include an audio endpoint"@,
    {
        match self {
            SettingsSaveError::Hotkey(e) => e.message(),
            SettingsSaveError::Endpoint(e) => e.message(),
        }
    }
}

/// What saving a settings-window edit yields.
#[derive(Debug)]
pub struct SettingsSave {
    /// The new settings.
    pub settings: AppSettings,
    /// The new API keys.
    pub api_keys: ApiKeys,
    /// The transcription hotkey text changed, so it must be registered again.
    pub hotkeys_changed: bool,
    /// The UI language changed, so the tray must be relabelled.
    pub language_changed: bool,
    /// The base URL, the request timeout or the API key of the active profile
    /// changed, so the model list must be loaded again.
    pub models_source_changed: bool,
}

/// The API keys after the key field of an edit is saved for profile `active`:
/// a blank key removes the profile's key, another is stored trimmed.
pub open spec fn keys_after_edit(
    keys: Map<Seq<char>, Seq<char>>,
    active: Seq<char>,
    api_key: Seq<char>,
) -> Map<Seq<char>, Seq<char>> {
    if trim(api_key).len() == 0 {
        keys.remove(active)
    } else {
        keys.insert(active, trim(api_key))
    }
}

/// The edit passes the checks that saving makes: a valid hotkey and a base
/// URL under which the models endpoint resolves.
pub open spec fn edit_is_valid(e: EditView) -> bool {
    &&& normalized_hotkey(e.transcription_hotkey) is Ok
    &&& !names_audio_endpoint(trim(e.base_url))
    &&& url_resolution(directory_base(e.base_url), relative_path(MODELS_ENDPOINT_PATH@)) is Some
}

/// Saves a settings-window edit: checks the hotkey and the base URL, applies
/// the edit and normalizes the settings, stores or removes the active
/// profile's key, and reports what else must be redone.
pub fn save_settings_edit(settings: &AppSettings, api_keys: &ApiKeys, edit: SettingsEdit) -> (r: Result<
    SettingsSave,
    SettingsSaveError,
>)
    requires
        settings.api_profiles.len() < 0x1_0000_0000,
    ensures
        normalized_hotkey(edit@.transcription_hotkey) matches Err(f) ==> (r matches Err(
            SettingsSaveError::Hotkey(e),
        ) && e@ == f),
        normalized_hotkey(edit@.transcription_hotkey) is Ok && names_audio_endpoint(
            trim(edit@.base_url),
        ) ==> r matches Err(SettingsSaveError::Endpoint(EndpointError::AudioEndpointInBase)),
        normalized_hotkey(edit@.transcription_hotkey) is Ok && !names_audio_endpoint(
            trim(edit@.base_url),
        ) && url_resolution(directory_base(edit@.base_url), relative_path(MODELS_ENDPOINT_PATH@))
            is None ==> r matches Err(SettingsSaveError::Endpoint(EndpointError::InvalidUrl(_))),
        edit_is_valid(edit@) ==> (r matches Ok(save) && {
            let new_settings = normalized_settings(applied_edit(settings@, edit@));
            let old_profile = active_profile_of(settings@);
            let new_profile = active_profile_of(new_settings);
            let old_key = key_for_profile(api_keys@, settings@.active_api_profile_id);
            &&& save.settings@ == new_settings
            &&& save.api_keys@ == keys_after_edit(
                api_keys@,
                settings@.active_api_profile_id,
                edit@.api_key,
            )
            &&& save.hotkeys_changed == (settings@.hotkey != trim(edit@.transcription_hotkey))
            &&& save.language_changed == (new_settings.ui_language != settings@.ui_language)
            &&& save.models_source_changed == (old_profile.base_url != new_profile.base_url
                || old_profile.request_timeout_seconds != new_profile.request_timeout_seconds
                || old_key != trim(edit@.api_key))
        }),
{
    let ghost e = edit@;
    match normalize_hotkey(edit.transcription_hotkey.as_str()) {
        Err(err) => return Err(SettingsSaveError::Hotkey(err)),
        Ok(_) => {},
    }
    match endpoint(edit.base_url.as_str(), MODELS_ENDPOINT_PATH) {
        Err(err) => return Err(SettingsSaveError::Endpoint(err)),
        Ok(_) => {},
    }
    let hotkey_text = trim_str(edit.transcription_hotkey.as_str());
    let hotkeys_changed = !str_eq(settings.hotkey.as_str(), hotkey_text.as_str());
    let old_language = settings.ui_language;
    let active_id = string_from(settings.active_api_profile_id.as_str());
    let old_profile = settings.active_profile();
    let old_api_key = api_key_for_profile(api_keys, active_id.as_str());
    let api_key = trim_str(edit.api_key.as_str());
    proof {
        lemma_applied_edit_len(settings@, edit@);
    }
    let edited = apply_settings_edit(settings.duplicate(), edit);
    let new_settings = edited.normalized();
    let mut new_keys = api_keys.duplicate();
    if chars_of(api_key.as_str()).len() == 0 {
        new_keys.remove(active_id.as_str());
    } else {
        new_keys.insert(string_from(active_id.as_str()), string_from(api_key.as_str()));
    }
    let new_profile = new_settings.active_profile();
    let models_source_changed = !str_eq(old_profile.base_url.as_str(), new_profile.base_url.as_str())
        || profile_requires_http_rebuild(&old_profile, &new_profile) || !str_eq(
        old_api_key.as_str(),
        api_key.as_str(),
    );
    let language_changed = new_settings.ui_language != old_language;
    Ok(
        SettingsSave {
            settings: new_settings,
            api_keys: new_keys,
            hotkeys_changed,
            language_changed,
            models_source_changed,
        },
    )
}


// ---------------------------------------------------------------------------
// Model lists
// ---------------------------------------------------------------------------

/// Whether a model list loaded for `profile_id` belongs to the active profile
/// (lists for other profiles arrive late and are dropped).
pub fn models_belong_to_active_profile(settings: &AppSettings, profile_id: &str) -> (r: bool)
    ensures
        r == (profile_id@ == active_profile_of(settings@).id),
{
    let active = settings.active_profile();
    str_eq(profile_id, active.id.as_str())
}

/// The model options offered for the active profile: the loaded list when it
/// was loaded for that profile, else none.
pub fn model_options_for_active_profile(
    settings: &AppSettings,
    options_profile_id: Option<&str>,
    options: &[String],
) -> (r: Vec<String>)
    ensures
        (match options_profile_id {
            Some(id) => id@ == active_profile_of(settings@).id,
            None => false,
        }) ==> (r.len() == options.len() && forall|i: int| 0 <= i < options.len() ==> #[trigger] r@[i]@ == options@[i]@),
        !(match options_profile_id {
            Some(id) => id@ == active_profile_of(settings@).id,
            None => false,
        }) ==> r.len() == 0,
{
    let matches = match options_profile_id {
        Some(id) => models_belong_to_active_profile(settings, id),
        None => false,
    };
    let mut r: Vec<String> = Vec::new();
    if matches {
        let mut i: usize = 0;
        while i < options.len()
            invariant
                i <= options.len(),
                r.len() == i,
                forall|k: int| 0 <= k < i ==> #[trigger] r@[k]@ == options@[k]@,
            decreases options.len() - i,
        {
            r.push(string_from(options[i].as_str()));
            i = i + 1;
        }
    }
    r
}


// ---------------------------------------------------------------------------
// Laws of profiles
// ---------------------------------------------------------------------------

proof fn lemma_free_profile_number(ps: Seq<ProfileView>, k: nat, fuel: nat)
    ensures
        k <= free_profile_number(ps, k, fuel) <= k + fuel,
        forall|j: nat|
            k <= j < free_profile_number(ps, k, fuel) ==> has_id(ps, #[trigger] numbered_profile_id(j)),
        free_profile_number(ps, k, fuel) < k + fuel ==> !has_id(
            ps,
            numbered_profile_id(free_profile_number(ps, k, fuel)),
        ),
    decreases fuel,
{
    if fuel > 0 && has_id(ps, numbered_profile_id(k)) {
        lemma_free_profile_number(ps, k + 1, (fuel - 1) as nat);
        assert forall|j: nat| k <= j < free_profile_number(ps, k, fuel) implies has_id(
            ps,
            #[trigger] numbered_profile_id(j),
        ) by {
            if j == k {
            } else {
                assert(k + 1 <= j);
            }
        }
    }
}

proof fn lemma_numbered_ids_differ(a: nat, b: nat)
    requires
        numbered_profile_id(a) == numbered_profile_id(b),
    ensures
        a == b,
{
    let p = "profile-"@;
    assert(decimal(a) =~= numbered_profile_id(a).skip(p.len() as int));
    assert(decimal(b) =~= numbered_profile_id(b).skip(p.len() as int));
    crate::text::lemma_decimal_injective(a, b);
}

/// The profile that "add profile" creates has an id that no existing profile has.
pub proof fn law_next_profile_id_is_fresh(ps: Seq<ProfileView>)
    ensures
        !has_id(ps, next_profile(ps).id),
{
    let n = ps.len();
    let k = n + 1;
    let big_k = free_profile_number(ps, k, n);
    lemma_free_profile_number(ps, k, n);
    if has_id(ps, numbered_profile_id(big_k)) {
        assert(big_k == k + n);
        let f = |j: int| choose|i: int| 0 <= i < ps.len() && (#[trigger] ps[i]).id == numbered_profile_id((k + j) as nat);
        assert forall|j: int| 0 <= j < n + 1 implies 0 <= #[trigger] f(j) < n && ps[f(j)].id
            == numbered_profile_id((k + j) as nat) by {
            if j < n {
                assert(has_id(ps, numbered_profile_id((k + j) as nat)));
            }
        }
        assert forall|a: int, b: int| 0 <= a < b < n + 1 implies #[trigger] f(a) != #[trigger] f(b) by {
            if f(a) == f(b) {
                lemma_numbered_ids_differ((k + a) as nat, (k + b) as nat);
            }
        }
        crate::settings::lemma_injection_bound(f, (n + 1) as int, n as int);
    }
}


/// The built-in profiles are only ever appended: the profiles given keep
/// their places.
proof fn lemma_builtins_keep_prefix(ps: Seq<ProfileView>)
    requires
        ps.len() > 0,
    ensures
        crate::settings::with_builtin_profiles(ps).len() >= ps.len(),
        forall|k: int| 0 <= k < ps.len() ==> #[trigger] crate::settings::with_builtin_profiles(ps)[k] == ps[k],
{
    let a = ps;
    let b = if crate::settings::has_ai2npu(a) {
        a
    } else {
        a.push(crate::settings::ai2npu_profile_view())
    };
    assert forall|k: int| 0 <= k < ps.len() implies #[trigger] crate::settings::with_builtin_profiles(ps)[k] == ps[k] by {
        assert(b[k] == a[k]);
    }
}

/// Normalizing settings whose active id is not blank and names one of their
/// profiles keeps that id active.
proof fn lemma_normalized_keeps_named_active(t: SettingsView, i: int)
    requires
        0 <= i < t.api_profiles.len(),
        t.api_profiles[i].id == t.active_api_profile_id,
        t.active_api_profile_id.len() > 0,
    ensures
        normalized_settings(t).active_api_profile_id == t.active_api_profile_id,
        normalized_settings(t).api_profiles.len() > i,
        normalized_settings(t).api_profiles[i].id == t.active_api_profile_id,
        active_profile_of(normalized_settings(t)).id == t.active_api_profile_id,
{
    let c = crate::settings::clamped_settings(t);
    assert(c.api_profiles[i].id == t.api_profiles[i].id);
    let ps = crate::settings::with_builtin_profiles(c.api_profiles);
    lemma_builtins_keep_prefix(c.api_profiles);
    assert(ps[i].id == t.active_api_profile_id);
    assert(has_id(ps, t.active_api_profile_id));
    let n = normalized_settings(t);
    crate::settings::law_unique_names(ps);
    assert(n.api_profiles[i].id == ps[i].id);
    assert(has_id(n.api_profiles, n.active_api_profile_id));
    lemma_first_with_id_bound(n.api_profiles, n.active_api_profile_id);
}

/// The "add profile" command makes the new profile the active one: the
/// active profile afterwards has the new profile's id, server, model,
/// temperature and timeout.
pub proof fn law_added_profile_becomes_active(s: SettingsView)
    ensures
        ({
            let p = next_profile(s.api_profiles);
            let a = active_profile_of(with_added_profile(s));
            &&& a.id == p.id
            &&& a.base_url == p.base_url
            &&& a.model == p.model
            &&& a.temperature_tenths == p.temperature_tenths
            &&& a.request_timeout_seconds == p.request_timeout_seconds
        }),
{
    let p = next_profile(s.api_profiles);
    let n = s.api_profiles.len() as int;
    let t = SettingsView { active_api_profile_id: p.id, api_profiles: s.api_profiles.push(p), ..s };
    assert(t.api_profiles[n] == p);
    reveal_strlit("profile-");
    assert(p.id.len() > 0);
    lemma_normalized_keeps_named_active(t, n);
    let r = normalized_settings(t);
    let c = crate::settings::clamped_settings(t);
    let ps = crate::settings::with_builtin_profiles(c.api_profiles);
    lemma_builtins_keep_prefix(c.api_profiles);
    crate::settings::law_unique_names(ps);
    law_next_profile_id_is_fresh(s.api_profiles);
    assert forall|k: int| 0 <= k < n implies (#[trigger] r.api_profiles[k]).id != p.id by {
        assert(r.api_profiles[k].id == ps[k].id);
        assert(ps[k] == c.api_profiles[k]);
        assert(c.api_profiles[k].id == s.api_profiles[k].id);
        if s.api_profiles[k].id == p.id {
            assert(has_id(s.api_profiles, p.id));
        }
    }
    crate::settings::lemma_first_with_id_at(r.api_profiles, p.id, n);
    assert(r.api_profiles[n].base_url == ps[n].base_url);
    assert(ps[n] == c.api_profiles[n]);
}

/// Choosing a profile by its visible name in the settings window makes that
/// profile's id the active one, when the id is not blank.
pub proof fn law_selected_profile_becomes_active(s: SettingsView, name: Seq<char>)
    requires
        first_with_name(s.api_profiles, trim(name)) matches Some(i) && 0 <= i < s.api_profiles.len()
            && s.api_profiles[i].id.len() > 0,
        with_selected_profile(s, name) is Some,
    ensures
        first_with_name(s.api_profiles, trim(name)) matches Some(i) && active_profile_of(
            with_selected_profile(s, name)->0,
        ).id == s.api_profiles[i].id,
{
    let i = first_with_name(s.api_profiles, trim(name))->0;
    let t = SettingsView { active_api_profile_id: s.api_profiles[i].id, ..s };
    lemma_normalized_keeps_named_active(t, i);
}


/// The "delete profile" command takes away every profile with the active
/// profile's id, unless that is the id of a built-in profile (`ai2npu` or
/// `groq`), which normalization puts back when it is missing.
pub proof fn law_deleted_profile_is_gone(s: SettingsView)
    requires
        s.active_api_profile_id != "ai2npu"@,
        s.active_api_profile_id != "groq"@,
    ensures
        !has_id(with_active_deleted(s).api_profiles, s.active_api_profile_id),
{
    let id = s.active_api_profile_id;
    let pred = |p: ProfileView| p.id != id;
    let rest = without_profile(s.api_profiles, id);
    assert forall|k: int| 0 <= k < rest.len() implies (#[trigger] rest[k]).id != id by {
        s.api_profiles.lemma_filter_pred(pred, k);
    }
    let t = SettingsView {
        api_profiles: rest,
        active_api_profile_id: if rest.len() > 0 {
            rest[0].id
        } else {
            Seq::empty()
        },
        ..s
    };
    let c = crate::settings::clamped_settings(t);
    assert forall|k: int| 0 <= k < c.api_profiles.len() implies (#[trigger] c.api_profiles[k]).id != id by {
        assert(c.api_profiles[k].id == rest[k].id);
    }
    let ps = crate::settings::with_builtin_profiles(c.api_profiles);
    reveal_strlit("ai2npu");
    reveal_strlit("groq");
    assert(crate::settings::ai2npu_profile_view().id != id);
    assert(crate::settings::groq_profile_view().id != id);
    let a = if c.api_profiles.len() == 0 {
        seq![crate::settings::ai2npu_profile_view()]
    } else {
        c.api_profiles
    };
    let b = if crate::settings::has_ai2npu(a) {
        a
    } else {
        a.push(crate::settings::ai2npu_profile_view())
    };
    assert forall|k: int| 0 <= k < a.len() implies (#[trigger] a[k]).id != id by {
        if c.api_profiles.len() > 0 {
            assert(a[k] == c.api_profiles[k]);
        }
    }
    assert forall|k: int| 0 <= k < b.len() implies (#[trigger] b[k]).id != id by {
        if k < a.len() {
            assert(b[k] == a[k]);
        }
    }
    assert forall|k: int| 0 <= k < ps.len() implies (#[trigger] ps[k]).id != id by {
        if k < b.len() {
            assert(ps[k] == b[k]);
        }
    }
    let n = with_active_deleted(s);
    crate::settings::law_unique_names(ps);
    assert(n.api_profiles == crate::settings::with_unique_names(ps));
    if has_id(n.api_profiles, id) {
        let j = choose|j: int| 0 <= j < n.api_profiles.len() && (#[trigger] n.api_profiles[j]).id == id;
        assert(n.api_profiles[j].id == ps[j].id);
    }
}


proof fn lemma_first_with_id_least(ps: Seq<ProfileView>, id: Seq<char>, j: int)
    requires
        0 <= j < ps.len(),
        ps[j].id == id,
    ensures
        first_with_id(ps, id) <= j,
    decreases ps.len(),
{
    if ps[0].id != id {
        let t = ps.drop_first();
        assert(t[j - 1] == ps[j]);
        lemma_first_with_id_least(t, id, j - 1);
    }
}

/// A settings-window edit changes only the active profile: every profile
/// whose id is not the active id stays as it was, and so do later profiles
/// that repeat the active id; the first profile with the active id keeps its
/// id and takes the edit's trimmed name, base URL and model.
pub proof fn law_edit_changes_only_the_active_profile(s: SettingsView, e: EditView)
    ensures
        ({
            let ps = s.api_profiles;
            let r = applied_edit(s, e).api_profiles;
            let active = s.active_api_profile_id;
            &&& r.len() == ps.len()
            &&& forall|k: int| 0 <= k < ps.len() && ps[k].id != active ==> #[trigger] r[k] == ps[k]
            &&& forall|k: int, j: int|
                #![trigger r[k], ps[j]]
                0 <= j < k < ps.len() && ps[j].id == active ==> r[k] == ps[k]
            &&& forall|k: int|
                0 <= k < ps.len() && ps[k].id == active && (forall|j: int| 0 <= j < k ==> ps[j].id != active)
                    ==> (#[trigger] r[k]).id == ps[k].id && r[k].name == trim(e.profile_name)
                    && r[k].base_url == trim(e.base_url) && r[k].model == trim(e.model)
                    && r[k].language == ps[k].language && r[k].temperature_tenths == match e.temperature_tenths {
                    Some(t) => t,
                    None => ps[k].temperature_tenths,
                }
        }),
{
    let ps = s.api_profiles;
    let active = s.active_api_profile_id;
    let r = applied_edit(s, e).api_profiles;
    if has_id(ps, active) {
        lemma_first_with_id_bound(ps, active);
        let i = first_with_id(ps, active);
        assert forall|k: int, j: int|
            #![trigger r[k], ps[j]]
            0 <= j < k < ps.len() && ps[j].id == active implies r[k] == ps[k] by {
            lemma_first_with_id_least(ps, active, j);
        }
        assert forall|k: int|
            0 <= k < ps.len() && ps[k].id == active && (forall|j: int| 0 <= j < k ==> ps[j].id != active)
                implies (#[trigger] r[k]).id == ps[k].id && r[k].name == trim(e.profile_name)
                && r[k].base_url == trim(e.base_url) && r[k].model == trim(e.model)
                && r[k].language == ps[k].language && r[k].temperature_tenths == match e.temperature_tenths {
                Some(t) => t,
                None => ps[k].temperature_tenths,
            } by {
            crate::settings::lemma_first_with_id_at(ps, active, k);
        }
    }
}


/// Saving the settings window with the shown label of a log level, in either
/// language, stores that level: the label is read back as the level and
/// normalization keeps it.
pub proof fn law_log_level_labels_save_their_level(s: SettingsView, e: EditView, language: AppLanguage)
    requires
        e.log_level == crate::ui::log_level_label(s.log_level, language),
        s.log_level == "Debug"@ || s.log_level == "Warning"@ || s.log_level == "Error"@ || s.log_level
            == "Information"@,
    ensures
        log_level_from_label(e.log_level) == s.log_level,
        normalized_settings(applied_edit(s, e)).log_level == s.log_level,
{
    reveal_strlit("Debug");
    reveal_strlit("Warning");
    reveal_strlit("Error");
    reveal_strlit("Information");
    reveal_strlit("Отладка");
    reveal_strlit("Предупреждения");
    reveal_strlit("Ошибки");
    reveal_strlit("Инфо");
    assert("Debug"@.len() == 5 && "Debug"@[0] == 'D');
    assert("Warning"@.len() == 7 && "Warning"@[0] == 'W');
    assert("Error"@.len() == 5 && "Error"@[0] == 'E');
    assert("Information"@.len() == 11 && "Information"@[0] == 'I');
    assert("Отладка"@.len() == 7 && "Отладка"@[0] == 'О');
    assert("Предупреждения"@.len() == 14 && "Предупреждения"@[0] == 'П');
    assert("Ошибки"@.len() == 6 && "Ошибки"@[0] == 'О');
    assert("Инфо"@.len() == 4 && "Инфо"@[0] == 'И');
    let l = e.log_level;
    assert(l.len() > 0);
    assert(!crate::text::is_ws(l[0]) && !crate::text::is_ws(l.last()));
    crate::text::lemma_trim_fixed(l);
    crate::settings::law_known_log_levels_are_kept(applied_edit(s, e));
}

} // verus!
