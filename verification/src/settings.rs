//! Application settings: API profiles, hotkey, recording and insertion options,
//! and the normalization that makes any loaded settings usable.
use crate::hotkeys::matcher::{normalize_hotkey, normalized_hotkey};
use crate::text::{
    ascii_lower, is_ws,
    chars_contains, chars_eq_ignore_case, chars_of, contains, decimal, eq_ignore_case, lower,
    lower_chars, push_decimal, push_str, str_eq, string_from, string_of, trim, trim_chars,
};
use vstd::prelude::*;

verus! {

/// Default ai2npu/OpenAI-compatible transcription model used when a profile model is empty.
pub const AI2NPU_DEFAULT_MODEL: &'static str = "openai/whisper-large-v3-turbo";

/// The version number that normalized settings carry.
pub const SETTINGS_VERSION: u32 = 8;

/// Recording stop policy controlled by the hotkey mode setting.
#[derive(Clone, Copy, Debug, PartialEq, Eq, Structural)]
pub enum RecordingMode {
    Toggle,
    Hold,
    SilenceTimeout,
}

/// Settings UI language.
#[derive(Clone, Copy, Debug, PartialEq, Eq, Structural)]
pub enum AppLanguage {
    Russian,
    English,
}

/// OpenAI-compatible audio API profile.
///
/// The temperature is kept in tenths (`2` stands for `0.2`), the precision to
/// which normalization rounds it.
#[derive(Debug, Clone, PartialEq)]
pub struct ApiProfile {
    pub id: String,
    pub name: String,
    pub base_url: String,
    pub model: String,
    pub language: String,
    pub temperature_tenths: i64,
    pub request_timeout_seconds: u64,
}

/// [`ApiProfile`] as a mathematical value.
pub struct ProfileView {
    pub id: Seq<char>,
    pub name: Seq<char>,
    pub base_url: Seq<char>,
    pub model: Seq<char>,
    pub language: Seq<char>,
    pub temperature_tenths: int,
    pub request_timeout_seconds: nat,
}

impl View for ApiProfile {
    type V = ProfileView;

    open spec fn view(&self) -> ProfileView {
        ProfileView {
            id: self.id@,
            name: self.name@,
            base_url: self.base_url@,
            model: self.model@,
            language: self.language@,
            temperature_tenths: self.temperature_tenths as int,
            request_timeout_seconds: self.request_timeout_seconds as nat,
        }
    }
}

pub open spec fn profile_views(ps: Seq<ApiProfile>) -> Seq<ProfileView> {
    ps.map_values(|p: ApiProfile| p@)
}

/// Persisted application settings.
#[derive(Debug, Clone, PartialEq)]
pub struct AppSettings {
    pub settings_version: u32,
    pub active_api_profile_id: String,
    pub api_profiles: Vec<ApiProfile>,
    pub hotkey: String,
    pub recording_mode: RecordingMode,
    pub silence_threshold_percent: u8,
    pub silence_timeout_milliseconds: u64,
    pub max_recording_seconds: u64,
    pub start_with_windows: bool,
    pub ui_language: AppLanguage,
    pub launch_minimized_to_tray: bool,
    pub show_floating_recording_window: bool,
    pub enable_sounds: bool,
    pub restore_clipboard_content: bool,
    pub delay_before_paste_milliseconds: u64,
    pub delay_before_clipboard_restore_milliseconds: u64,
    pub log_level: String,
}

/// [`AppSettings`] as a mathematical value.
pub struct SettingsView {
    pub settings_version: nat,
    pub active_api_profile_id: Seq<char>,
    pub api_profiles: Seq<ProfileView>,
    pub hotkey: Seq<char>,
    pub recording_mode: RecordingMode,
    pub silence_threshold_percent: nat,
    pub silence_timeout_milliseconds: nat,
    pub max_recording_seconds: nat,
    pub start_with_windows: bool,
    pub ui_language: AppLanguage,
    pub launch_minimized_to_tray: bool,
    pub show_floating_recording_window: bool,
    pub enable_sounds: bool,
    pub restore_clipboard_content: bool,
    pub delay_before_paste_milliseconds: nat,
    pub delay_before_clipboard_restore_milliseconds: nat,
    pub log_level: Seq<char>,
}

impl View for AppSettings {
    type V = SettingsView;

    open spec fn view(&self) -> SettingsView {
        SettingsView {
            settings_version: self.settings_version as nat,
            active_api_profile_id: self.active_api_profile_id@,
            api_profiles: profile_views(self.api_profiles@),
            hotkey: self.hotkey@,
            recording_mode: self.recording_mode,
            silence_threshold_percent: self.silence_threshold_percent as nat,
            silence_timeout_milliseconds: self.silence_timeout_milliseconds as nat,
            max_recording_seconds: self.max_recording_seconds as nat,
            start_with_windows: self.start_with_windows,
            ui_language: self.ui_language,
            launch_minimized_to_tray: self.launch_minimized_to_tray,
            show_floating_recording_window: self.show_floating_recording_window,
            enable_sounds: self.enable_sounds,
            restore_clipboard_content: self.restore_clipboard_content,
            delay_before_paste_milliseconds: self.delay_before_paste_milliseconds as nat,
            delay_before_clipboard_restore_milliseconds: self.delay_before_clipboard_restore_milliseconds as nat,
            log_level: self.log_level@,
        }
    }
}

// ---------------------------------------------------------------------------
// Built-in profiles and defaults
// ---------------------------------------------------------------------------

/// The local ai2npu profile.
pub open spec fn ai2npu_profile_view() -> ProfileView {
    ProfileView {
        id: "ai2npu"@,
        name: "ai2npu"@,
        base_url: "http://localhost:9555"@,
        model: AI2NPU_DEFAULT_MODEL@,
        language: Seq::empty(),
        temperature_tenths: 2,
        request_timeout_seconds: 120,
    }
}

/// The Groq cloud profile.
pub open spec fn groq_profile_view() -> ProfileView {
    ProfileView {
        id: "groq"@,
        name: "groq"@,
        base_url: "https://api.groq.com/openai/"@,
        model: "whisper-large-v3"@,
        language: Seq::empty(),
        temperature_tenths: 2,
        request_timeout_seconds: 120,
    }
}

/// The settings of a first launch.
pub open spec fn default_settings() -> SettingsView {
    SettingsView {
        settings_version: 8,
        active_api_profile_id: "ai2npu"@,
        api_profiles: seq![ai2npu_profile_view(), groq_profile_view()],
        hotkey: "Ctrl+Space"@,
        recording_mode: RecordingMode::Toggle,
        silence_threshold_percent: 4,
        silence_timeout_milliseconds: 1200,
        max_recording_seconds: 120,
        start_with_windows: false,
        ui_language: AppLanguage::Russian,
        launch_minimized_to_tray: true,
        show_floating_recording_window: true,
        enable_sounds: true,
        restore_clipboard_content: true,
        delay_before_paste_milliseconds: 80,
        delay_before_clipboard_restore_milliseconds: 300,
        log_level: "Information"@,
    }
}

/// The ai2npu profile.
pub fn ai2npu_profile() -> (p: ApiProfile)
    ensures
        p@ == ai2npu_profile_view(),
{
    ApiProfile {
        id: string_from("ai2npu"),
        name: string_from("ai2npu"),
        base_url: string_from("http://localhost:9555"),
        model: string_from(AI2NPU_DEFAULT_MODEL),
        language: String::new(),
        temperature_tenths: 2,
        request_timeout_seconds: 120,
    }
}

/// The Groq profile.
pub fn groq_profile() -> (p: ApiProfile)
    ensures
        p@ == groq_profile_view(),
{
    ApiProfile {
        id: string_from("groq"),
        name: string_from("groq"),
        base_url: string_from("https://api.groq.com/openai/"),
        model: string_from("whisper-large-v3"),
        language: String::new(),
        temperature_tenths: 2,
        request_timeout_seconds: 120,
    }
}

impl ApiProfile {
    /// An unnamed profile with the default temperature and timeout.
    pub fn empty() -> (p: ApiProfile)
        ensures
            p@ == (ProfileView {
                id: Seq::empty(),
                name: Seq::empty(),
                base_url: Seq::empty(),
                model: Seq::empty(),
                language: Seq::empty(),
                temperature_tenths: 2,
                request_timeout_seconds: 120,
            }),
    {
        ApiProfile {
            id: String::new(),
            name: String::new(),
            base_url: String::new(),
            model: String::new(),
            language: String::new(),
            temperature_tenths: 2,
            request_timeout_seconds: 120,
        }
    }

    /// A copy of the profile.
    pub fn duplicate(&self) -> (p: ApiProfile)
        ensures
            p@ == self@,
    {
        ApiProfile {
            id: self.id.clone(),
            name: self.name.clone(),
            base_url: self.base_url.clone(),
            model: self.model.clone(),
            language: self.language.clone(),
            temperature_tenths: self.temperature_tenths,
            request_timeout_seconds: self.request_timeout_seconds,
        }
    }
}

impl Default for ApiProfile {
    fn default() -> (p: ApiProfile)
        ensures
            p@.id.len() == 0 && p@.name.len() == 0 && p@.base_url.len() == 0 && p@.model.len() == 0
                && p@.language.len() == 0 && p@.temperature_tenths == 2
                && p@.request_timeout_seconds == 120,
    {
        ApiProfile::empty()
    }
}

impl Default for AppSettings {
    fn default() -> (s: AppSettings)
        ensures
            s@ == default_settings(),
    {
        let mut api_profiles: Vec<ApiProfile> = Vec::new();
        api_profiles.push(ai2npu_profile());
        api_profiles.push(groq_profile());
        let s = AppSettings {
            settings_version: 8,
            active_api_profile_id: string_from("ai2npu"),
            api_profiles,
            hotkey: string_from("Ctrl+Space"),
            recording_mode: RecordingMode::Toggle,
            silence_threshold_percent: 4,
            silence_timeout_milliseconds: 1200,
            max_recording_seconds: 120,
            start_with_windows: false,
            ui_language: AppLanguage::Russian,
            launch_minimized_to_tray: true,
            show_floating_recording_window: true,
            enable_sounds: true,
            restore_clipboard_content: true,
            delay_before_paste_milliseconds: 80,
            delay_before_clipboard_restore_milliseconds: 300,
            log_level: string_from("Information"),
        };
        proof {
            assert(profile_views(s.api_profiles@) =~= seq![ai2npu_profile_view(), groq_profile_view()]);
        }
        s
    }
}

// ---------------------------------------------------------------------------
// Specification of normalization
// ---------------------------------------------------------------------------

pub open spec fn clamp(v: int, lo: int, hi: int) -> int {
    if v < lo {
        lo
    } else if v > hi {
        hi
    } else {
        v
    }
}

pub open spec fn min(v: int, hi: int) -> int {
    if v > hi {
        hi
    } else {
        v
    }
}

/// A profile with its temperature in `0.0..=1.0` and its timeout in `5..=600` seconds.
pub open spec fn normalized_profile(p: ProfileView) -> ProfileView {
    ProfileView {
        temperature_tenths: clamp(p.temperature_tenths, 0, 10),
        request_timeout_seconds: clamp(p.request_timeout_seconds as int, 5, 600) as nat,
        ..p
    }
}

/// The log level names that settings keep; anything else becomes `Information`.
pub open spec fn normalized_log_level(level: Seq<char>) -> Seq<char> {
    if level == "Debug"@ {
        "Debug"@
    } else if level == "Warning"@ {
        "Warning"@
    } else if level == "Error"@ {
        "Error"@
    } else {
        "Information"@
    }
}

pub open spec fn is_ai2npu_profile(p: ProfileView) -> bool {
    p.id == "ai2npu"@ || eq_ignore_case(p.name, "ai2npu"@)
}

/// A profile that talks to Groq: named so, or with a Groq URL.
pub open spec fn is_groq_profile(p: ProfileView) -> bool {
    eq_ignore_case(p.name, "groq"@) || contains(lower(p.base_url), "groq.com"@)
}

pub open spec fn has_ai2npu(ps: Seq<ProfileView>) -> bool {
    exists|i: int| 0 <= i < ps.len() && is_ai2npu_profile(#[trigger] ps[i])
}

pub open spec fn has_groq(ps: Seq<ProfileView>) -> bool {
    exists|i: int| 0 <= i < ps.len() && is_groq_profile(#[trigger] ps[i])
}

pub open spec fn has_id(ps: Seq<ProfileView>, id: Seq<char>) -> bool {
    exists|i: int| 0 <= i < ps.len() && (#[trigger] ps[i]).id == id
}

/// The profiles with the built-in ai2npu and Groq profiles appended when
/// missing (and ai2npu alone when there are none).
pub open spec fn with_builtin_profiles(ps: Seq<ProfileView>) -> Seq<ProfileView> {
    let a = if ps.len() == 0 {
        seq![ai2npu_profile_view()]
    } else {
        ps
    };
    let b = if has_ai2npu(a) {
        a
    } else {
        a.push(ai2npu_profile_view())
    };
    if has_groq(b) {
        b
    } else {
        b.push(groq_profile_view())
    }
}

/// The index of the first profile named `ai2npu` (in any ASCII case).
pub open spec fn first_ai2npu_name(ps: Seq<ProfileView>) -> Option<int>
    decreases ps.len(),
{
    if ps.len() == 0 {
        None
    } else if eq_ignore_case(ps[0].name, "ai2npu"@) {
        Some(0)
    } else {
        match first_ai2npu_name(ps.drop_first()) {
            Some(i) => Some(i + 1),
            None => None,
        }
    }
}

/// The active profile id: kept when it names a profile, else the first
/// profile named ai2npu, else the first profile.
pub open spec fn chosen_active_id(active: Seq<char>, ps: Seq<ProfileView>) -> Seq<char> {
    if active.len() == 0 || !has_id(ps, active) {
        match first_ai2npu_name(ps) {
            Some(i) => ps[i].id,
            None => ps[0].id,
        }
    } else {
        active
    }
}

/// The name a profile asks for: its trimmed name, else its trimmed id, else
/// `profile-N` for its 1-based position `N`.
pub open spec fn base_name(p: ProfileView, index: nat) -> Seq<char> {
    if trim(p.name).len() > 0 {
        trim(p.name)
    } else if trim(p.id).len() > 0 {
        trim(p.id)
    } else {
        "profile-"@ + decimal(index + 1)
    }
}

/// The `k`-th name tried for `base`: `base` itself, then `base (2)`, `base (3)`, ...
pub open spec fn name_candidate(base: Seq<char>, k: nat) -> Seq<char> {
    if k <= 1 {
        base
    } else {
        base + " ("@ + decimal(k) + ")"@
    }
}

pub open spec fn name_taken(used: Seq<Seq<char>>, name: Seq<char>) -> bool {
    exists|i: int| 0 <= i < used.len() && eq_ignore_case(#[trigger] used[i], name)
}

/// The first candidate from the `k`-th on that no used name equals (ignoring
/// ASCII case), trying at most `fuel + 1` candidates.
pub open spec fn free_name_from(base: Seq<char>, used: Seq<Seq<char>>, k: nat, fuel: nat) -> Seq<
    char,
>
    decreases fuel,
{
    if fuel == 0 || !name_taken(used, name_candidate(base, k)) {
        name_candidate(base, k)
    } else {
        free_name_from(base, used, k + 1, (fuel - 1) as nat)
    }
}

/// The name a profile gets when `used` names are already given out. One of
/// the first `used.len() + 1` candidates is always free.
pub open spec fn free_name(base: Seq<char>, used: Seq<Seq<char>>) -> Seq<char> {
    free_name_from(base, used, 1, used.len())
}

/// The names given to the first `n` profiles.
pub open spec fn unique_names(ps: Seq<ProfileView>, n: nat) -> Seq<Seq<char>>
    decreases n,
{
    if n == 0 {
        Seq::empty()
    } else {
        let used = unique_names(ps, (n - 1) as nat);
        used.push(free_name(base_name(ps[n - 1], (n - 1) as nat), used))
    }
}

/// The profiles renamed so that every name is non-blank and unique ignoring ASCII case.
pub open spec fn with_unique_names(ps: Seq<ProfileView>) -> Seq<ProfileView> {
    let names = unique_names(ps, ps.len());
    Seq::new(ps.len(), |i: int| ProfileView { name: names[i], ..ps[i] })
}

/// Settings whose fields are clamped and whose hotkey is canonical, before the
/// profile list is completed.
pub open spec fn clamped_settings(s: SettingsView) -> SettingsView {
    SettingsView {
        settings_version: 8,
        hotkey: match normalized_hotkey(s.hotkey) {
            Ok(k) => k,
            Err(_) => "Ctrl+Space"@,
        },
        silence_threshold_percent: min(s.silence_threshold_percent as int, 100) as nat,
        silence_timeout_milliseconds: clamp(s.silence_timeout_milliseconds as int, 100, 30_000) as nat,
        max_recording_seconds: clamp(s.max_recording_seconds as int, 1, 3600) as nat,
        launch_minimized_to_tray: true,
        show_floating_recording_window: true,
        delay_before_paste_milliseconds: min(s.delay_before_paste_milliseconds as int, 5000) as nat,
        delay_before_clipboard_restore_milliseconds: min(
            s.delay_before_clipboard_restore_milliseconds as int,
            30_000,
        ) as nat,
        log_level: normalized_log_level(s.log_level),
        api_profiles: s.api_profiles.map_values(|p: ProfileView| normalized_profile(p)),
        ..s
    }
}

/// Settings whose profile list holds the built-in profiles, a valid active
/// profile and unique names.
pub open spec fn with_ensured_profiles(s: SettingsView) -> SettingsView {
    let ps = with_builtin_profiles(s.api_profiles);
    SettingsView {
        api_profiles: with_unique_names(ps),
        active_api_profile_id: chosen_active_id(s.active_api_profile_id, ps),
        ..s
    }
}

/// What `AppSettings::normalized` makes of settings `s`.
pub open spec fn normalized_settings(s: SettingsView) -> SettingsView {
    with_ensured_profiles(clamped_settings(s))
}

/// The profile that requests use: the one with the active id, else the first,
/// else the built-in ai2npu profile.
pub open spec fn active_profile_of(s: SettingsView) -> ProfileView {
    if has_id(s.api_profiles, s.active_api_profile_id) {
        s.api_profiles[first_with_id(s.api_profiles, s.active_api_profile_id)]
    } else if s.api_profiles.len() > 0 {
        s.api_profiles[0]
    } else {
        ai2npu_profile_view()
    }
}

/// The index of the first profile with id `id`.
pub open spec fn first_with_id(ps: Seq<ProfileView>, id: Seq<char>) -> int
    decreases ps.len(),
{
    if ps.len() == 0 || ps[0].id == id {
        0
    } else {
        first_with_id(ps.drop_first(), id) + 1
    }
}


// ---------------------------------------------------------------------------
// Normalization
// ---------------------------------------------------------------------------

proof fn lemma_first_ai2npu_name_at(ps: Seq<ProfileView>, i: int)
    requires
        0 <= i <= ps.len(),
        forall|k: int| 0 <= k < i ==> !eq_ignore_case((#[trigger] ps[k]).name, "ai2npu"@),
        i < ps.len() ==> eq_ignore_case(ps[i].name, "ai2npu"@),
    ensures
        first_ai2npu_name(ps) == (if i < ps.len() {
            Some(i)
        } else {
            None::<int>
        }),
    decreases i,
{
    if i > 0 {
        let t = ps.drop_first();
        assert forall|k: int| 0 <= k < i - 1 implies !eq_ignore_case(
            (#[trigger] t[k]).name,
            "ai2npu"@,
        ) by {
            assert(t[k] == ps[k + 1]);
        }
        if i < ps.len() {
            assert(t[i - 1] == ps[i]);
        }
        lemma_first_ai2npu_name_at(t, i - 1);
        assert(!eq_ignore_case(ps[0].name, "ai2npu"@));
    }
}

pub(crate) proof fn lemma_first_with_id_at(ps: Seq<ProfileView>, id: Seq<char>, i: int)
    requires
        0 <= i < ps.len(),
        forall|k: int| 0 <= k < i ==> (#[trigger] ps[k]).id != id,
        ps[i].id == id,
    ensures
        first_with_id(ps, id) == i,
    decreases i,
{
    if i > 0 {
        let t = ps.drop_first();
        assert forall|k: int| 0 <= k < i - 1 implies (#[trigger] t[k]).id != id by {
            assert(t[k] == ps[k + 1]);
        }
        assert(t[i - 1] == ps[i]);
        lemma_first_with_id_at(t, id, i - 1);
        assert(ps[0].id != id);
    }
}

fn is_ai2npu(p: &ApiProfile) -> (r: bool)
    ensures
        r == is_ai2npu_profile(p@),
{
    str_eq(p.id.as_str(), "ai2npu") || crate::text::str_eq_ignore_case(p.name.as_str(), "ai2npu")
}

/// Whether the profile talks to Groq (by name or by URL).
pub fn is_groq(p: &ApiProfile) -> (r: bool)
    ensures
        r == is_groq_profile(p@),
{
    if crate::text::str_eq_ignore_case(p.name.as_str(), "groq") {
        return true;
    }
    let url = chars_of(p.base_url.as_str());
    let lowered = lower_chars(url.as_slice());
    let needle = chars_of("groq.com");
    chars_contains(lowered.as_slice(), needle.as_slice())
}

fn any_ai2npu(ps: &Vec<ApiProfile>) -> (r: bool)
    ensures
        r == has_ai2npu(profile_views(ps@)),
{
    let mut i: usize = 0;
    while i < ps.len()
        invariant
            0 <= i <= ps.len(),
            forall|k: int| 0 <= k < i ==> !is_ai2npu_profile(#[trigger] profile_views(ps@)[k]),
        decreases ps.len() - i,
    {
        if is_ai2npu(&ps[i]) {
            proof {
                assert(is_ai2npu_profile(profile_views(ps@)[i as int]));
            }
            return true;
        }
        i = i + 1;
    }
    false
}

fn any_groq(ps: &Vec<ApiProfile>) -> (r: bool)
    ensures
        r == has_groq(profile_views(ps@)),
{
    let mut i: usize = 0;
    while i < ps.len()
        invariant
            0 <= i <= ps.len(),
            forall|k: int| 0 <= k < i ==> !is_groq_profile(#[trigger] profile_views(ps@)[k]),
        decreases ps.len() - i,
    {
        if is_groq(&ps[i]) {
            proof {
                assert(is_groq_profile(profile_views(ps@)[i as int]));
            }
            return true;
        }
        i = i + 1;
    }
    false
}

/// The position of the first profile whose id is `id`.
pub(crate) fn position_of_id(ps: &Vec<ApiProfile>, id: &str) -> (r: Option<usize>)
    ensures
        match r {
            Some(i) => has_id(profile_views(ps@), id@) && i == first_with_id(profile_views(ps@), id@)
                && i < ps.len(),
            None => !has_id(profile_views(ps@), id@),
        },
{
    let mut i: usize = 0;
    while i < ps.len()
        invariant
            0 <= i <= ps.len(),
            forall|k: int| 0 <= k < i ==> (#[trigger] profile_views(ps@)[k]).id != id@,
        decreases ps.len() - i,
    {
        if str_eq(ps[i].id.as_str(), id) {
            proof {
                lemma_first_with_id_at(profile_views(ps@), id@, i as int);
            }
            return Some(i);
        }
        i = i + 1;
    }
    None
}

fn position_of_ai2npu_name(ps: &Vec<ApiProfile>) -> (r: Option<usize>)
    ensures
        match first_ai2npu_name(profile_views(ps@)) {
            Some(i) => r is Some && r->0 as int == i,
            None => r is None,
        },
        r matches Some(i) ==> i < ps.len(),
{
    let mut i: usize = 0;
    while i < ps.len()
        invariant
            0 <= i <= ps.len(),
            forall|k: int|
                0 <= k < i ==> !eq_ignore_case((#[trigger] profile_views(ps@)[k]).name, "ai2npu"@),
        decreases ps.len() - i,
    {
        if crate::text::str_eq_ignore_case(ps[i].name.as_str(), "ai2npu") {
            proof {
                lemma_first_ai2npu_name_at(profile_views(ps@), i as int);
            }
            return Some(i);
        }
        i = i + 1;
    }
    proof {
        lemma_first_ai2npu_name_at(profile_views(ps@), i as int);
    }
    None
}

fn clamp_u64(v: u64, lo: u64, hi: u64) -> (r: u64)
    requires
        lo <= hi,
    ensures
        r as int == clamp(v as int, lo as int, hi as int),
{
    if v < lo {
        lo
    } else if v > hi {
        hi
    } else {
        v
    }
}

fn min_u64(v: u64, hi: u64) -> (r: u64)
    ensures
        r as int == min(v as int, hi as int),
{
    if v > hi {
        hi
    } else {
        v
    }
}

fn normalize_profile(p: &ApiProfile) -> (r: ApiProfile)
    ensures
        r@ == normalized_profile(p@),
{
    let t = if p.temperature_tenths < 0 {
        0
    } else if p.temperature_tenths > 10 {
        10
    } else {
        p.temperature_tenths
    };
    let mut r = p.duplicate();
    r.temperature_tenths = t;
    r.request_timeout_seconds = clamp_u64(p.request_timeout_seconds, 5, 600);
    r
}

fn normalize_log_level(level: &str) -> (r: String)
    ensures
        r@ == normalized_log_level(level@),
{
    if str_eq(level, "Debug") {
        string_from("Debug")
    } else if str_eq(level, "Warning") {
        string_from("Warning")
    } else if str_eq(level, "Error") {
        string_from("Error")
    } else {
        string_from("Information")
    }
}

/// The base name of a profile (see [`base_name`]).
fn profile_base_name(p: &ApiProfile, index: usize) -> (r: Vec<char>)
    requires
        index < u64::MAX,
    ensures
        r@ == base_name(p@, index as nat),
{
    let name = chars_of(p.name.as_str());
    let name = trim_chars(name.as_slice());
    if name.len() > 0 {
        return name;
    }
    let id = chars_of(p.id.as_str());
    let id = trim_chars(id.as_slice());
    if id.len() > 0 {
        return id;
    }
    let mut s = string_from("profile-");
    push_decimal(&mut s, (index as u64) + 1);
    chars_of(s.as_str())
}

fn candidate(base: &Vec<char>, k: u64) -> (r: Vec<char>)
    ensures
        r@ == name_candidate(base@, k as nat),
{
    if k <= 1 {
        return base.clone();
    }
    let mut s = string_of(base.as_slice());
    push_str(&mut s, " (");
    push_decimal(&mut s, k);
    push_str(&mut s, ")");
    chars_of(s.as_str())
}

fn is_taken(used: &Vec<Vec<char>>, name: &Vec<char>) -> (r: bool)
    ensures
        r == name_taken(used@.map_values(|u: Vec<char>| u@), name@),
{
    let ghost uv = used@.map_values(|u: Vec<char>| u@);
    let mut i: usize = 0;
    while i < used.len()
        invariant
            0 <= i <= used.len(),
            uv == used@.map_values(|u: Vec<char>| u@),
            forall|k: int| 0 <= k < i ==> !eq_ignore_case(#[trigger] uv[k], name@),
        decreases used.len() - i,
    {
        if chars_eq_ignore_case(used[i].as_slice(), name.as_slice()) {
            proof {
                assert(uv[i as int] == used@[i as int]@);
            }
            return true;
        }
        proof {
            assert(uv[i as int] == used@[i as int]@);
        }
        i = i + 1;
    }
    false
}

fn choose_free_name(base: &Vec<char>, used: &Vec<Vec<char>>) -> (r: Vec<char>)
    requires
        used.len() < u64::MAX - 2,
    ensures
        r@ == free_name(base@, used@.map_values(|u: Vec<char>| u@)),
{
    let ghost uv = used@.map_values(|u: Vec<char>| u@);
    let mut k: u64 = 1;
    let mut fuel: usize = used.len();
    let mut cand = candidate(base, 1);
    while fuel > 0 && is_taken(used, &cand)
        invariant
            k + fuel == used.len() + 1,
            k >= 1,
            used.len() < u64::MAX - 2,
            uv == used@.map_values(|u: Vec<char>| u@),
            cand@ == name_candidate(base@, k as nat),
            free_name(base@, uv) == free_name_from(base@, uv, k as nat, fuel as nat),
        decreases fuel,
    {
        k = k + 1;
        fuel = fuel - 1;
        cand = candidate(base, k);
    }
    cand
}

impl AppSettings {
    /// Applies defaults, clamps unsafe values, normalizes the hotkey, and makes
    /// sure the built-in profiles, a valid active profile and unique profile
    /// names exist.
    pub fn normalized(self) -> (s: Self)
        requires
            self.api_profiles.len() + 2 < u64::MAX - 2,
        ensures
            s@ == normalized_settings(self@),
    {
        let AppSettings {
            settings_version: _,
            active_api_profile_id,
            api_profiles,
            hotkey,
            recording_mode,
            silence_threshold_percent,
            silence_timeout_milliseconds,
            max_recording_seconds,
            start_with_windows,
            ui_language,
            launch_minimized_to_tray: _,
            show_floating_recording_window: _,
            enable_sounds,
            restore_clipboard_content,
            delay_before_paste_milliseconds,
            delay_before_clipboard_restore_milliseconds,
            log_level,
        } = self;
        let hotkey = match normalize_hotkey(hotkey.as_str()) {
            Ok(k) => k,
            Err(_) => string_from("Ctrl+Space"),
        };
        let mut profiles: Vec<ApiProfile> = Vec::new();
        let mut i: usize = 0;
        while i < api_profiles.len()
            invariant
                0 <= i <= api_profiles.len(),
                profile_views(profiles@) == profile_views(api_profiles@).take(i as int).map_values(
                    |p: ProfileView| normalized_profile(p),
                ),
            decreases api_profiles.len() - i,
        {
            let p = normalize_profile(&api_profiles[i]);
            let ghost before = profile_views(profiles@);
            profiles.push(p);
            proof {
                assert(profile_views(profiles@) =~= before.push(p@));
                assert(profile_views(api_profiles@)[i as int] == api_profiles@[i as int]@);
                assert(profile_views(api_profiles@).take(i + 1) =~= profile_views(api_profiles@).take(i as int).push(api_profiles@[i as int]@));
                assert(profile_views(profiles@) =~= profile_views(api_profiles@).take(i + 1).map_values(
                    |p: ProfileView| normalized_profile(p),
                ));
            }
            i = i + 1;
        }
        proof {
            assert(profile_views(api_profiles@).take(api_profiles.len() as int) =~= profile_views(
                api_profiles@,
            ));
        }
        let clamped = AppSettings {
            settings_version: SETTINGS_VERSION,
            active_api_profile_id,
            api_profiles: profiles,
            hotkey,
            recording_mode,
            silence_threshold_percent: if silence_threshold_percent > 100 {
                100
            } else {
                silence_threshold_percent
            },
            silence_timeout_milliseconds: clamp_u64(silence_timeout_milliseconds, 100, 30_000),
            max_recording_seconds: clamp_u64(max_recording_seconds, 1, 3600),
            start_with_windows,
            ui_language,
            launch_minimized_to_tray: true,
            show_floating_recording_window: true,
            enable_sounds,
            restore_clipboard_content,
            delay_before_paste_milliseconds: min_u64(delay_before_paste_milliseconds, 5000),
            delay_before_clipboard_restore_milliseconds: min_u64(
                delay_before_clipboard_restore_milliseconds,
                30_000,
            ),
            log_level: normalize_log_level(log_level.as_str()),
        };
        proof {
            assert(clamped@ == clamped_settings(self@));
        }
        clamped.ensure_profiles()
    }

    #[verifier::rlimit(40)]
    fn ensure_profiles(self) -> (s: Self)
        requires
            self.api_profiles.len() + 2 < u64::MAX - 2,
        ensures
            s@ == with_ensured_profiles(self@),
    {
        let mut settings = self;
        let ghost given = settings@;
        if settings.api_profiles.len() == 0 {
            settings.api_profiles.push(ai2npu_profile());
            proof {
                assert(profile_views(settings.api_profiles@) =~= seq![ai2npu_profile_view()]);
            }
        }
        let ghost a = profile_views(settings.api_profiles@);
        if !any_ai2npu(&settings.api_profiles) {
            settings.api_profiles.push(ai2npu_profile());
            proof {
                assert(profile_views(settings.api_profiles@) =~= a.push(ai2npu_profile_view()));
            }
        }
        let ghost b = profile_views(settings.api_profiles@);
        if !any_groq(&settings.api_profiles) {
            settings.api_profiles.push(groq_profile());
            proof {
                assert(profile_views(settings.api_profiles@) =~= b.push(groq_profile_view()));
            }
        }
        proof {
            assert(profile_views(settings.api_profiles@) == with_builtin_profiles(given.api_profiles));
        }
        proof {
            assert(settings.api_profiles.len() > 0);
        }
        let keep = chars_of(settings.active_api_profile_id.as_str()).len() > 0 && position_of_id(
            &settings.api_profiles,
            settings.active_api_profile_id.as_str(),
        ).is_some();
        let ghost ps = profile_views(settings.api_profiles@);
        proof {
            assert(settings.active_api_profile_id@ == given.active_api_profile_id);
        }
        if !keep {
            let index = match position_of_ai2npu_name(&settings.api_profiles) {
                Some(i) => i,
                None => 0,
            };
            let id = settings.api_profiles[index].id.clone();
            proof {
                assert(ps[index as int] == settings.api_profiles@[index as int]@);
                assert(id@ == ps[index as int].id);
                assert(given.active_api_profile_id.len() == 0 || !has_id(ps, given.active_api_profile_id));
            }
            settings.active_api_profile_id = id;
        }
        proof {
            assert(settings.active_api_profile_id@ == chosen_active_id(
                given.active_api_profile_id,
                profile_views(settings.api_profiles@),
            ));
        }
        settings.ensure_unique_profile_names()
    }

    fn ensure_unique_profile_names(self) -> (s: Self)
        requires
            self.api_profiles.len() < u64::MAX - 2,
        ensures
            s@ == (SettingsView { api_profiles: with_unique_names(self@.api_profiles), ..self@ }),
    {
        let mut settings = self;
        let ghost ps = profile_views(settings.api_profiles@);
        let mut used: Vec<Vec<char>> = Vec::new();
        let mut renamed: Vec<ApiProfile> = Vec::new();
        let mut i: usize = 0;
        while i < settings.api_profiles.len()
            invariant
                0 <= i <= settings.api_profiles.len(),
                settings.api_profiles.len() < u64::MAX - 2,
                ps == profile_views(settings.api_profiles@),
                used.len() == i,
                used@.map_values(|u: Vec<char>| u@) == unique_names(ps, i as nat),
                renamed.len() == i,
                forall|k: int|
                    0 <= k < i ==> (#[trigger] profile_views(renamed@)[k]) == (ProfileView {
                        name: unique_names(ps, i as nat)[k],
                        ..ps[k]
                    }),
            decreases settings.api_profiles.len() - i,
        {
            let base = profile_base_name(&settings.api_profiles[i], i);
            let name = choose_free_name(&base, &used);
            let ghost before = unique_names(ps, i as nat);
            let ghost renamed_before = profile_views(renamed@);
            let mut p = settings.api_profiles[i].duplicate();
            p.name = string_of(name.as_slice());
            used.push(name);
            renamed.push(p);
            proof {
                assert(unique_names(ps, (i + 1) as nat) == before.push(name@));
                assert(used@.map_values(|u: Vec<char>| u@) =~= before.push(name@));
                assert forall|k: int| 0 <= k < i + 1 implies (#[trigger] profile_views(renamed@)[k])
                    == (ProfileView { name: unique_names(ps, (i + 1) as nat)[k], ..ps[k] }) by {
                    if k < i {
                        assert(profile_views(renamed@)[k] == renamed_before[k]);
                    }
                }
            }
            i = i + 1;
        }
        proof {
            assert(profile_views(renamed@) =~= with_unique_names(ps));
        }
        settings.api_profiles = renamed;
        settings
    }

    /// A copy of these settings.
    pub fn duplicate(&self) -> (s: AppSettings)
        ensures
            s@ == self@,
    {
        let mut profiles: Vec<ApiProfile> = Vec::new();
        let mut i: usize = 0;
        while i < self.api_profiles.len()
            invariant
                i <= self.api_profiles.len(),
                profiles.len() == i,
                forall|k: int| 0 <= k < i ==> (#[trigger] profiles@[k])@ == self.api_profiles@[k]@,
            decreases self.api_profiles.len() - i,
        {
            profiles.push(self.api_profiles[i].duplicate());
            i = i + 1;
        }
        let s = AppSettings {
            settings_version: self.settings_version,
            active_api_profile_id: string_from(self.active_api_profile_id.as_str()),
            api_profiles: profiles,
            hotkey: string_from(self.hotkey.as_str()),
            recording_mode: self.recording_mode,
            silence_threshold_percent: self.silence_threshold_percent,
            silence_timeout_milliseconds: self.silence_timeout_milliseconds,
            max_recording_seconds: self.max_recording_seconds,
            start_with_windows: self.start_with_windows,
            ui_language: self.ui_language,
            launch_minimized_to_tray: self.launch_minimized_to_tray,
            show_floating_recording_window: self.show_floating_recording_window,
            enable_sounds: self.enable_sounds,
            restore_clipboard_content: self.restore_clipboard_content,
            delay_before_paste_milliseconds: self.delay_before_paste_milliseconds,
            delay_before_clipboard_restore_milliseconds: self.delay_before_clipboard_restore_milliseconds,
            log_level: string_from(self.log_level.as_str()),
        };
        proof {
            assert(profile_views(s.api_profiles@) =~= profile_views(self.api_profiles@));
        }
        s
    }

    /// The profile requests use: the one whose id is active, else the first
    /// profile, else the built-in ai2npu profile.
    pub fn active_profile(&self) -> (p: ApiProfile)
        ensures
            p@ == active_profile_of(self@),
    {
        match position_of_id(&self.api_profiles, self.active_api_profile_id.as_str()) {
            Some(i) => self.api_profiles[i].duplicate(),
            None => {
                if self.api_profiles.len() > 0 {
                    self.api_profiles[0].duplicate()
                } else {
                    ai2npu_profile()
                }
            },
        }
    }
}


// ---------------------------------------------------------------------------
// Enum values in settings files
// ---------------------------------------------------------------------------

/// Why a number in a settings file names no enum variant.
#[derive(Clone, Copy, Debug, PartialEq, Eq, Structural)]
pub enum EnumNumberError {
    /// The number is negative.
    Negative,
    /// No variant has the number.
    Unsupported,
}

impl RecordingMode {
    /// The mode a settings file stores as a number (its position).
    pub fn from_number(value: u64) -> (r: Option<RecordingMode>)
        ensures
            value == 0 ==> r == Some(RecordingMode::Toggle),
            value == 1 ==> r == Some(RecordingMode::Hold),
            value == 2 ==> r == Some(RecordingMode::SilenceTimeout),
            value > 2 ==> r is None,
    {
        if value == 0 {
            Some(RecordingMode::Toggle)
        } else if value == 1 {
            Some(RecordingMode::Hold)
        } else if value == 2 {
            Some(RecordingMode::SilenceTimeout)
        } else {
            None
        }
    }

    /// The mode a settings file stores as a signed number.
    pub fn from_signed(value: i64) -> (r: Result<RecordingMode, EnumNumberError>)
        ensures
            value < 0 ==> r == Err::<RecordingMode, EnumNumberError>(EnumNumberError::Negative),
            value >= 0 ==> match RecordingMode::from_number_spec(value as u64) {
                Some(m) => r == Ok::<RecordingMode, EnumNumberError>(m),
                None => r == Err::<RecordingMode, EnumNumberError>(EnumNumberError::Unsupported),
            },
    {
        if value < 0 {
            Err(EnumNumberError::Negative)
        } else {
            match RecordingMode::from_number(value as u64) {
                Some(m) => Ok(m),
                None => Err(EnumNumberError::Unsupported),
            }
        }
    }

    pub open spec fn from_number_spec(value: u64) -> Option<RecordingMode> {
        if value == 0 {
            Some(RecordingMode::Toggle)
        } else if value == 1 {
            Some(RecordingMode::Hold)
        } else if value == 2 {
            Some(RecordingMode::SilenceTimeout)
        } else {
            None
        }
    }

    /// The mode a settings file stores by its variant name.
    pub fn from_name(name: &str) -> (r: Option<RecordingMode>)
        ensures
            name@ == "Toggle"@ ==> r == Some(RecordingMode::Toggle),
            name@ == "Hold"@ ==> r == Some(RecordingMode::Hold),
            name@ == "SilenceTimeout"@ ==> r == Some(RecordingMode::SilenceTimeout),
            name@ != "Toggle"@ && name@ != "Hold"@ && name@ != "SilenceTimeout"@ ==> r is None,
    {
        proof {
            reveal_strlit("Toggle");
            reveal_strlit("Hold");
            reveal_strlit("SilenceTimeout");
            assert("Toggle"@.len() != "Hold"@.len());
            assert("Toggle"@.len() != "SilenceTimeout"@.len());
            assert("Hold"@.len() != "SilenceTimeout"@.len());
        }
        if str_eq(name, "Toggle") {
            Some(RecordingMode::Toggle)
        } else if str_eq(name, "Hold") {
            Some(RecordingMode::Hold)
        } else if str_eq(name, "SilenceTimeout") {
            Some(RecordingMode::SilenceTimeout)
        } else {
            None
        }
    }

    /// The variant name a settings file stores.
    pub fn name(&self) -> (r: &'static str)
        ensures
            *self == RecordingMode::Toggle ==> r@ == "Toggle"@,
            *self == RecordingMode::Hold ==> r@ == "Hold"@,
            *self == RecordingMode::SilenceTimeout ==> r@ == "SilenceTimeout"@,
    {
        match self {
            RecordingMode::Toggle => "Toggle",
            RecordingMode::Hold => "Hold",
            RecordingMode::SilenceTimeout => "SilenceTimeout",
        }
    }
}

impl AppLanguage {
    pub open spec fn from_number_spec(value: u64) -> Option<AppLanguage> {
        if value == 0 {
            Some(AppLanguage::Russian)
        } else if value == 1 {
            Some(AppLanguage::English)
        } else {
            None
        }
    }

    /// The language a settings file stores as a number (its position).
    pub fn from_number(value: u64) -> (r: Option<AppLanguage>)
        ensures
            r == AppLanguage::from_number_spec(value),
    {
        if value == 0 {
            Some(AppLanguage::Russian)
        } else if value == 1 {
            Some(AppLanguage::English)
        } else {
            None
        }
    }

    /// The language a settings file stores as a signed number.
    pub fn from_signed(value: i64) -> (r: Result<AppLanguage, EnumNumberError>)
        ensures
            value < 0 ==> r == Err::<AppLanguage, EnumNumberError>(EnumNumberError::Negative),
            value >= 0 ==> match AppLanguage::from_number_spec(value as u64) {
                Some(l) => r == Ok::<AppLanguage, EnumNumberError>(l),
                None => r == Err::<AppLanguage, EnumNumberError>(EnumNumberError::Unsupported),
            },
    {
        if value < 0 {
            Err(EnumNumberError::Negative)
        } else {
            match AppLanguage::from_number(value as u64) {
                Some(l) => Ok(l),
                None => Err(EnumNumberError::Unsupported),
            }
        }
    }

    /// The language a settings file stores by its variant name.
    pub fn from_name(name: &str) -> (r: Option<AppLanguage>)
        ensures
            name@ == "Russian"@ ==> r == Some(AppLanguage::Russian),
            name@ == "English"@ ==> r == Some(AppLanguage::English),
            name@ != "Russian"@ && name@ != "English"@ ==> r is None,
    {
        proof {
            reveal_strlit("Russian");
            reveal_strlit("English");
            assert("Russian"@[0] != "English"@[0]);
        }
        if str_eq(name, "Russian") {
            Some(AppLanguage::Russian)
        } else if str_eq(name, "English") {
            Some(AppLanguage::English)
        } else {
            None
        }
    }

    /// The variant name a settings file stores.
    pub fn name(&self) -> (r: &'static str)
        ensures
            *self == AppLanguage::Russian ==> r@ == "Russian"@,
            *self == AppLanguage::English ==> r@ == "English"@,
    {
        match self {
            AppLanguage::Russian => "Russian",
            AppLanguage::English => "English",
        }
    }
}

// ---------------------------------------------------------------------------
// Settings files
// ---------------------------------------------------------------------------

/// The settings as a file holds them: every field optional through its
/// default, the profile list possibly absent, and the temperature and timeout
/// that older files kept outside the profiles.
#[derive(Debug)]
pub struct AppSettingsFile {
    pub settings_version: u32,
    pub active_api_profile_id: String,
    pub api_profiles: Option<Vec<ApiProfile>>,
    pub hotkey: String,
    pub recording_mode: RecordingMode,
    pub silence_threshold_percent: u8,
    pub silence_timeout_milliseconds: u64,
    pub max_recording_seconds: u64,
    pub start_with_windows: bool,
    pub ui_language: AppLanguage,
    pub launch_minimized_to_tray: bool,
    pub show_floating_recording_window: bool,
    pub enable_sounds: bool,
    pub restore_clipboard_content: bool,
    pub delay_before_paste_milliseconds: u64,
    pub delay_before_clipboard_restore_milliseconds: u64,
    pub log_level: String,
    /// The temperature of older files, in tenths.
    pub temperature_tenths: Option<i64>,
    pub request_timeout_seconds: Option<u64>,
}

/// The settings a file holds, before normalization.
pub open spec fn file_settings_view(f: AppSettingsFile) -> SettingsView {
    SettingsView {
        settings_version: f.settings_version as nat,
        active_api_profile_id: f.active_api_profile_id@,
        api_profiles: match f.api_profiles {
            Some(ps) => profile_views(ps@),
            None => Seq::empty(),
        },
        hotkey: f.hotkey@,
        recording_mode: f.recording_mode,
        silence_threshold_percent: f.silence_threshold_percent as nat,
        silence_timeout_milliseconds: f.silence_timeout_milliseconds as nat,
        max_recording_seconds: f.max_recording_seconds as nat,
        start_with_windows: f.start_with_windows,
        ui_language: f.ui_language,
        launch_minimized_to_tray: f.launch_minimized_to_tray,
        show_floating_recording_window: f.show_floating_recording_window,
        enable_sounds: f.enable_sounds,
        restore_clipboard_content: f.restore_clipboard_content,
        delay_before_paste_milliseconds: f.delay_before_paste_milliseconds as nat,
        delay_before_clipboard_restore_milliseconds: f.delay_before_clipboard_restore_milliseconds as nat,
        log_level: f.log_level@,
    }
}

/// The first profile given the temperature and timeout of an older file,
/// where it holds them.
pub open spec fn with_legacy_values(
    s: SettingsView,
    temperature_tenths: Option<int>,
    timeout: Option<nat>,
) -> SettingsView {
    if s.api_profiles.len() == 0 {
        s
    } else {
        let p = s.api_profiles[0];
        let q = ProfileView {
            temperature_tenths: match temperature_tenths {
                Some(t) => t,
                None => p.temperature_tenths,
            },
            request_timeout_seconds: match timeout {
                Some(t) => t,
                None => p.request_timeout_seconds,
            },
            ..p
        };
        SettingsView { api_profiles: s.api_profiles.update(0, q), ..s }
    }
}

/// The settings a file yields: normalized, and where the file has no
/// profiles, its top-level temperature and timeout moved to the first profile
/// and normalized again.
pub open spec fn settings_of_file(f: AppSettingsFile) -> SettingsView {
    let had_profiles = f.api_profiles matches Some(ps) && ps.len() > 0;
    let s = normalized_settings(file_settings_view(f));
    if had_profiles {
        normalized_settings(s)
    } else {
        normalized_settings(
            with_legacy_values(
                s,
                match f.temperature_tenths {
                    Some(t) => Some(t as int),
                    None => None,
                },
                match f.request_timeout_seconds {
                    Some(t) => Some(t as nat),
                    None => None,
                },
            ),
        )
    }
}

proof fn lemma_normalized_len(s: SettingsView)
    ensures
        normalized_settings(s).api_profiles.len() <= s.api_profiles.len() + 2,
{
    let c = clamped_settings(s);
    assert(c.api_profiles.len() == s.api_profiles.len());
    let ps = with_builtin_profiles(c.api_profiles);
    assert(ps.len() <= c.api_profiles.len() + 2);
}

impl AppSettingsFile {
    /// The settings this file yields; see [`settings_of_file`].
    pub fn into_settings(self) -> (s: AppSettings)
        requires
            self.api_profiles matches Some(ps) ==> ps.len() < 0x1_0000_0000,
        ensures
            s@ == settings_of_file(self),
    {
        let ghost file = self;
        let had_profiles = match &self.api_profiles {
            Some(ps) => ps.len() > 0,
            None => false,
        };
        let AppSettingsFile {
            settings_version,
            active_api_profile_id,
            api_profiles,
            hotkey,
            recording_mode,
            silence_threshold_percent,
            silence_timeout_milliseconds,
            max_recording_seconds,
            start_with_windows,
            ui_language,
            launch_minimized_to_tray,
            show_floating_recording_window,
            enable_sounds,
            restore_clipboard_content,
            delay_before_paste_milliseconds,
            delay_before_clipboard_restore_milliseconds,
            log_level,
            temperature_tenths,
            request_timeout_seconds,
        } = self;
        let profiles = match api_profiles {
            Some(ps) => ps,
            None => Vec::new(),
        };
        proof {
            assert(profile_views(profiles@) =~= match file.api_profiles {
                Some(ps) => profile_views(ps@),
                None => Seq::empty(),
            });
        }
        let base = AppSettings {
            settings_version,
            active_api_profile_id,
            api_profiles: profiles,
            hotkey,
            recording_mode,
            silence_threshold_percent,
            silence_timeout_milliseconds,
            max_recording_seconds,
            start_with_windows,
            ui_language,
            launch_minimized_to_tray,
            show_floating_recording_window,
            enable_sounds,
            restore_clipboard_content,
            delay_before_paste_milliseconds,
            delay_before_clipboard_restore_milliseconds,
            log_level,
        };
        proof {
            assert(base@ == file_settings_view(file));
            lemma_normalized_len(base@);
        }
        let mut settings = base.normalized();
        if !had_profiles && settings.api_profiles.len() > 0 {
            let ghost before = settings@;
            let mut first = settings.api_profiles[0].duplicate();
            if let Some(t) = temperature_tenths {
                first.temperature_tenths = t;
            }
            if let Some(t) = request_timeout_seconds {
                first.request_timeout_seconds = t;
            }
            settings.api_profiles.set(0, first);
            proof {
                assert(profile_views(settings.api_profiles@) =~= before.api_profiles.update(
                    0,
                    first@,
                ));
                assert(settings@ == with_legacy_values(
                    before,
                    match temperature_tenths {
                        Some(t) => Some(t as int),
                        None => None,
                    },
                    match request_timeout_seconds {
                        Some(t) => Some(t as nat),
                        None => None,
                    },
                ));
            }
        }
        proof {
            lemma_normalized_len(settings@);
        }
        settings.normalized()
    }
}

impl Default for AppSettingsFile {
    /// A file holding the default settings, without profiles or older values.
    fn default() -> (f: AppSettingsFile)
        ensures
            f.api_profiles is None,
            f.temperature_tenths is None,
            f.request_timeout_seconds is None,
            (SettingsView {
                api_profiles: default_settings().api_profiles,
                ..file_settings_view(f)
            }) == default_settings(),
    {
        let d = AppSettings::default();
        AppSettingsFile {
            settings_version: d.settings_version,
            active_api_profile_id: d.active_api_profile_id,
            api_profiles: None,
            hotkey: d.hotkey,
            recording_mode: d.recording_mode,
            silence_threshold_percent: d.silence_threshold_percent,
            silence_timeout_milliseconds: d.silence_timeout_milliseconds,
            max_recording_seconds: d.max_recording_seconds,
            start_with_windows: d.start_with_windows,
            ui_language: d.ui_language,
            launch_minimized_to_tray: d.launch_minimized_to_tray,
            show_floating_recording_window: d.show_floating_recording_window,
            enable_sounds: d.enable_sounds,
            restore_clipboard_content: d.restore_clipboard_content,
            delay_before_paste_milliseconds: d.delay_before_paste_milliseconds,
            delay_before_clipboard_restore_milliseconds: d.delay_before_clipboard_restore_milliseconds,
            log_level: d.log_level,
            temperature_tenths: None,
            request_timeout_seconds: None,
        }
    }
}


// ---------------------------------------------------------------------------
// Counting
// ---------------------------------------------------------------------------

/// An injective map of `0..m` into `0..u` needs `m <= u`.
pub proof fn lemma_injection_bound(f: spec_fn(int) -> int, m: int, u: int)
    requires
        0 <= m,
        0 <= u,
        forall|i: int| 0 <= i < m ==> 0 <= #[trigger] f(i) < u,
        forall|i: int, j: int| 0 <= i < j < m ==> #[trigger] f(i) != #[trigger] f(j),
    ensures
        m <= u,
{
    let x = vstd::set_lib::set_int_range(0, m);
    vstd::set_lib::lemma_int_range(0, m);
    let y = x.map(f);
    assert(vstd::relations::injective_on(f, x)) by {
        assert forall|a: int, b: int| x.contains(a) && x.contains(b) && #[trigger] f(a) == #[trigger] f(b) implies a == b by {
            if a < b {
                assert(f(a) != f(b));
            } else if b < a {
                assert(f(b) != f(a));
            }
        }
    }
    vstd::set_lib::lemma_map_size(x, y, f);
    let r = vstd::set_lib::set_int_range(0, u);
    vstd::set_lib::lemma_int_range(0, u);
    assert(y.subset_of(r)) by {
        assert forall|v: int| y.contains(v) implies r.contains(v) by {
            let a = choose|a: int| x.contains(a) && f(a) == v;
            assert(0 <= f(a) < u);
        }
    }
    vstd::set_lib::lemma_len_subset(y, r);
}


// ---------------------------------------------------------------------------
// Laws of normalization
// ---------------------------------------------------------------------------

proof fn lemma_unique_names_prefix(ps: Seq<ProfileView>, n: nat, m: nat)
    requires
        m <= n,
    ensures
        unique_names(ps, n).len() == n,
        forall|i: int| 0 <= i < m ==> unique_names(ps, n)[i] == unique_names(ps, m)[i],
    decreases n,
{
    if n > 0 && m < n {
        lemma_unique_names_prefix(ps, (n - 1) as nat, m);
    } else if n > 0 {
        lemma_unique_names_prefix(ps, (n - 1) as nat, (n - 1) as nat);
    }
}

/// The number of the candidate that `free_name_from` settles on.
pub open spec fn free_name_number(base: Seq<char>, used: Seq<Seq<char>>, k: nat, fuel: nat) -> nat
    decreases fuel,
{
    if fuel == 0 || !name_taken(used, name_candidate(base, k)) {
        k
    } else {
        free_name_number(base, used, k + 1, (fuel - 1) as nat)
    }
}

proof fn lemma_free_name_number(base: Seq<char>, used: Seq<Seq<char>>, k: nat, fuel: nat)
    ensures
        free_name_from(base, used, k, fuel) == name_candidate(base, free_name_number(base, used, k, fuel)),
        k <= free_name_number(base, used, k, fuel) <= k + fuel,
        forall|j: nat|
            k <= j < free_name_number(base, used, k, fuel) ==> name_taken(used, #[trigger] name_candidate(base, j)),
        free_name_number(base, used, k, fuel) < k + fuel ==> !name_taken(
            used,
            name_candidate(base, free_name_number(base, used, k, fuel)),
        ),
    decreases fuel,
{
    if fuel > 0 && name_taken(used, name_candidate(base, k)) {
        lemma_free_name_number(base, used, k + 1, (fuel - 1) as nat);
        assert forall|j: nat| k <= j < free_name_number(base, used, k, fuel) implies name_taken(
            used,
            #[trigger] name_candidate(base, j),
        ) by {
            if j != k {
                assert(k + 1 <= j);
            }
        }
    }
}

proof fn lemma_lower_concat(a: Seq<char>, b: Seq<char>)
    ensures
        lower(a + b) == lower(a) + lower(b),
{
    assert(lower(a + b) =~= lower(a) + lower(b));
}

proof fn lemma_lower_decimal(n: nat)
    ensures
        lower(decimal(n)) == decimal(n),
{
    crate::text::lemma_decimal_digits(n);
    assert(lower(decimal(n)) =~= decimal(n)) by {
        assert forall|i: int| 0 <= i < decimal(n).len() implies #[trigger] lower(decimal(n))[i] == decimal(n)[i] by {
            assert(crate::text::is_ascii_digit(decimal(n)[i]));
        }
    }
}

/// Two different candidates for the same base never equal each other up to case.
proof fn lemma_candidates_differ(base: Seq<char>, a: nat, b: nat)
    requires
        1 <= a < b,
    ensures
        !eq_ignore_case(name_candidate(base, a), name_candidate(base, b)),
{
    let open_paren = " ("@;
    let close_paren = ")"@;
    reveal_strlit(" (");
    reveal_strlit(")");
    assert(lower(open_paren) =~= open_paren);
    assert(lower(close_paren) =~= close_paren);
    crate::text::lemma_decimal_digits(a);
    crate::text::lemma_decimal_digits(b);
    let cb = name_candidate(base, b);
    lemma_lower_concat(base + open_paren + decimal(b), close_paren);
    lemma_lower_concat(base + open_paren, decimal(b));
    lemma_lower_concat(base, open_paren);
    lemma_lower_decimal(b);
    assert(lower(cb) == lower(base) + open_paren + decimal(b) + close_paren);
    if a == 1 {
        assert(lower(name_candidate(base, a)).len() == base.len());
        assert(lower(cb).len() > base.len());
    } else {
        let ca = name_candidate(base, a);
        lemma_lower_concat(base + open_paren + decimal(a), close_paren);
        lemma_lower_concat(base + open_paren, decimal(a));
        lemma_lower_decimal(a);
        assert(lower(ca) == lower(base) + open_paren + decimal(a) + close_paren);
        if lower(ca) == lower(cb) {
            let start: int = base.len() as int + 2;
            assert(lower(ca).len() == lower(cb).len());
            assert(decimal(a).len() == decimal(b).len());
            assert(decimal(a) =~= lower(ca).subrange(start, start + decimal(a).len() as int));
            assert(decimal(b) =~= lower(cb).subrange(start, start + decimal(b).len() as int));
            crate::text::lemma_decimal_injective(a, b);
        }
    }
}

/// `free_name` gives a name that no used name equals up to case.
proof fn lemma_free_name_is_free(base: Seq<char>, used: Seq<Seq<char>>)
    ensures
        !name_taken(used, free_name(base, used)),
{
    let u = used.len();
    lemma_free_name_number(base, used, 1, u);
    let big_k = free_name_number(base, used, 1, u);
    if name_taken(used, name_candidate(base, big_k)) {
        assert(big_k == 1 + u);
        let f = |j: int| choose|i: int| 0 <= i < used.len() && eq_ignore_case(#[trigger] used[i], name_candidate(base, (1 + j) as nat));
        assert forall|j: int| 0 <= j < u + 1 implies 0 <= #[trigger] f(j) < u && eq_ignore_case(
            used[f(j)],
            name_candidate(base, (1 + j) as nat),
        ) by {
            if j < u {
                assert(name_taken(used, name_candidate(base, (1 + j) as nat)));
            }
        }
        assert forall|a: int, b: int| 0 <= a < b < u + 1 implies #[trigger] f(a) != #[trigger] f(b) by {
            if f(a) == f(b) {
                lemma_candidates_differ(base, (1 + a) as nat, (1 + b) as nat);
            }
        }
        lemma_injection_bound(f, (u + 1) as int, u as int);
    }
}

proof fn lemma_base_name_not_empty(p: ProfileView, index: nat)
    ensures
        base_name(p, index).len() > 0,
{
    reveal_strlit("profile-");
}

/// After renaming, every profile has a name, and no two names are equal up
/// to ASCII case.
pub proof fn law_unique_names(ps: Seq<ProfileView>)
    ensures
        with_unique_names(ps).len() == ps.len(),
        forall|i: int| 0 <= i < ps.len() ==> (#[trigger] with_unique_names(ps)[i]).id == ps[i].id,
        forall|i: int| 0 <= i < ps.len() ==> (#[trigger] with_unique_names(ps)[i]).name.len() > 0,
        forall|i: int, j: int|
            0 <= i < j < ps.len() ==> !eq_ignore_case(
                (#[trigger] with_unique_names(ps)[i]).name,
                (#[trigger] with_unique_names(ps)[j]).name,
            ),
{
    let names = unique_names(ps, ps.len());
    lemma_unique_names_prefix(ps, ps.len(), ps.len());
    assert forall|i: int| 0 <= i < ps.len() implies (#[trigger] with_unique_names(ps)[i]).name.len() > 0 by {
        let used = unique_names(ps, i as nat);
        lemma_unique_names_prefix(ps, ps.len(), (i + 1) as nat);
        lemma_unique_names_prefix(ps, (i + 1) as nat, (i + 1) as nat);
        let base = base_name(ps[i], i as nat);
        lemma_base_name_not_empty(ps[i], i as nat);
        lemma_free_name_number(base, used, 1, used.len());
        assert(unique_names(ps, (i + 1) as nat)[i] == free_name(base, used));
    }
    assert forall|i: int, j: int|
        0 <= i < j < ps.len() implies !eq_ignore_case(
        (#[trigger] with_unique_names(ps)[i]).name,
        (#[trigger] with_unique_names(ps)[j]).name,
    ) by {
        let used = unique_names(ps, j as nat);
        lemma_unique_names_prefix(ps, ps.len(), (j + 1) as nat);
        lemma_unique_names_prefix(ps, (j + 1) as nat, j as nat);
        lemma_unique_names_prefix(ps, j as nat, j as nat);
        let base = base_name(ps[j], j as nat);
        assert(names[j] == free_name(base, used));
        assert(names[i] == used[i]);
        lemma_free_name_is_free(base, used);
        if eq_ignore_case(names[i], names[j]) {
            assert(name_taken(used, free_name(base, used)));
        }
    }
}


proof fn lemma_builtins_present(ps: Seq<ProfileView>)
    ensures
        has_ai2npu(with_builtin_profiles(ps)),
        has_groq(with_builtin_profiles(ps)),
        with_builtin_profiles(ps).len() > 0,
        forall|i: int|
            0 <= i < with_builtin_profiles(ps).len() ==> {
                let p = #[trigger] with_builtin_profiles(ps)[i];
                (exists|j: int| 0 <= j < ps.len() && p == ps[j]) || p == ai2npu_profile_view()
                    || p == groq_profile_view()
            },
{
    reveal_strlit("ai2npu");
    let a = if ps.len() == 0 {
        seq![ai2npu_profile_view()]
    } else {
        ps
    };
    let b = if has_ai2npu(a) {
        a
    } else {
        a.push(ai2npu_profile_view())
    };
    if !has_ai2npu(a) {
        assert(is_ai2npu_profile(b[b.len() - 1]));
    }
    assert(has_ai2npu(b));
    let c = with_builtin_profiles(ps);
    if !has_groq(b) {
        assert(is_groq_profile(c[c.len() - 1])) by {
            reveal_strlit("groq");
            assert(eq_ignore_case(c[c.len() - 1].name, "groq"@));
        }
        let w = choose|i: int| 0 <= i < b.len() && is_ai2npu_profile(#[trigger] b[i]);
        assert(c[w] == b[w]);
    }
    assert forall|i: int| 0 <= i < c.len() implies {
        let p = #[trigger] c[i];
        (exists|j: int| 0 <= j < ps.len() && p == ps[j]) || p == ai2npu_profile_view()
            || p == groq_profile_view()
    } by {
        if i < b.len() {
            assert(c[i] == b[i]);
            if i < a.len() {
                assert(b[i] == a[i]);
                if ps.len() > 0 {
                    assert(a[i] == ps[i]);
                }
            }
        }
    }
}

proof fn lemma_first_ai2npu_name_bound(ps: Seq<ProfileView>)
    ensures
        first_ai2npu_name(ps) matches Some(i) ==> 0 <= i < ps.len(),
    decreases ps.len(),
{
    if ps.len() > 0 {
        lemma_first_ai2npu_name_bound(ps.drop_first());
    }
}

/// A name equal up to case to a literal without white space is its own
/// trimmed form.
proof fn lemma_trim_of_literal_like(name: Seq<char>, lit: Seq<char>)
    requires
        eq_ignore_case(name, lit),
        lit.len() > 0,
        forall|k: int| 0 <= k < lit.len() ==> !is_ws(#[trigger] lower(lit)[k]),
    ensures
        trim(name) == name,
{
    assert(lower(name).len() == name.len());
    assert(name.len() == lit.len());
    assert forall|k: int| 0 <= k < name.len() implies !is_ws(#[trigger] name[k]) by {
        assert(lower(name)[k] == ascii_lower(name[k]));
        assert(lower(name)[k] == lower(lit)[k]);
        if is_ws(name[k]) {
            assert(!('A' <= name[k] && name[k] <= 'Z'));
            assert(ascii_lower(name[k]) == name[k]);
        }
    }
    crate::text::lemma_trim_bounds(name, 0, name.len() as int);
    assert(name.subrange(0, name.len() as int) =~= name);
}

/// A profile named like `lit` (up to case) keeps a profile so named through
/// renaming: itself or an earlier one.
proof fn lemma_name_class_survives(ps: Seq<ProfileView>, i: int, lit: Seq<char>)
    requires
        0 <= i < ps.len(),
        eq_ignore_case(ps[i].name, lit),
        lit.len() > 0,
        forall|k: int| 0 <= k < lit.len() ==> !is_ws(#[trigger] lower(lit)[k]),
    ensures
        exists|m: int| 0 <= m <= i && eq_ignore_case((#[trigger] with_unique_names(ps)[m]).name, lit),
{
    let name = ps[i].name;
    lemma_trim_of_literal_like(name, lit);
    assert(lower(name).len() == name.len());
    assert(name.len() == lit.len());
    assert(trim(name).len() > 0);
    let base = base_name(ps[i], i as nat);
    assert(base == name);
    let used = unique_names(ps, i as nat);
    lemma_unique_names_prefix(ps, ps.len(), (i + 1) as nat);
    lemma_unique_names_prefix(ps, (i + 1) as nat, i as nat);
    lemma_unique_names_prefix(ps, i as nat, i as nat);
    let names = unique_names(ps, ps.len());
    assert(names[i] == free_name(base, used));
    if name_taken(used, base) {
        let m = choose|m: int| 0 <= m < used.len() && eq_ignore_case(#[trigger] used[m], base);
        assert(names[m] == used[m]);
        assert(eq_ignore_case(with_unique_names(ps)[m].name, lit));
    } else {
        assert(free_name(base, used) == base);
        assert(eq_ignore_case(with_unique_names(ps)[i].name, lit));
    }
}

proof fn lemma_normalized_active_exists(s: SettingsView)
    ensures
        has_id(normalized_settings(s).api_profiles, normalized_settings(s).active_api_profile_id),
        normalized_settings(s).api_profiles.len() > 0,
{
    let c = clamped_settings(s);
    let ps = with_builtin_profiles(c.api_profiles);
    let n = normalized_settings(s);
    lemma_builtins_present(c.api_profiles);
    law_unique_names(ps);
    let active = chosen_active_id(c.active_api_profile_id, ps);
    if c.active_api_profile_id.len() == 0 || !has_id(ps, c.active_api_profile_id) {
        lemma_first_ai2npu_name_bound(ps);
        match first_ai2npu_name(ps) {
            Some(i) => {
                assert(n.api_profiles[i].id == active);
            },
            None => {
                assert(n.api_profiles[0].id == active);
            },
        }
    } else {
        let i = choose|i: int| 0 <= i < ps.len() && (#[trigger] ps[i]).id == c.active_api_profile_id;
        assert(n.api_profiles[i].id == active);
    }
}

proof fn lemma_normalized_ai2npu(s: SettingsView)
    ensures
        has_ai2npu(normalized_settings(s).api_profiles),
{
    let c = clamped_settings(s);
    let ps = with_builtin_profiles(c.api_profiles);
    let n = normalized_settings(s);
    lemma_builtins_present(c.api_profiles);
    assert(n.api_profiles == with_unique_names(ps));
    let w = choose|i: int| 0 <= i < ps.len() && is_ai2npu_profile(#[trigger] ps[i]);
    if ps[w].id == "ai2npu"@ {
        assert(with_unique_names(ps)[w].id == ps[w].id);
        assert(is_ai2npu_profile(n.api_profiles[w]));
    } else {
        reveal_strlit("ai2npu");
        assert(lower("ai2npu"@) =~= "ai2npu"@);
        lemma_name_class_survives(ps, w, "ai2npu"@);
        let m = choose|m: int| 0 <= m <= w && eq_ignore_case((#[trigger] with_unique_names(ps)[m]).name, "ai2npu"@);
        assert(is_ai2npu_profile(n.api_profiles[m]));
    }
}

proof fn lemma_normalized_groq(s: SettingsView)
    ensures
        has_groq(normalized_settings(s).api_profiles),
{
    let c = clamped_settings(s);
    let ps = with_builtin_profiles(c.api_profiles);
    let n = normalized_settings(s);
    lemma_builtins_present(c.api_profiles);
    assert(n.api_profiles == with_unique_names(ps));
    let g = choose|i: int| 0 <= i < ps.len() && is_groq_profile(#[trigger] ps[i]);
    if contains(lower(ps[g].base_url), "groq.com"@) {
        assert(with_unique_names(ps)[g].base_url == ps[g].base_url);
        assert(is_groq_profile(n.api_profiles[g]));
    } else {
        reveal_strlit("groq");
        assert(lower("groq"@) =~= "groq"@);
        lemma_name_class_survives(ps, g, "groq"@);
        let m = choose|m: int| 0 <= m <= g && eq_ignore_case((#[trigger] with_unique_names(ps)[m]).name, "groq"@);
        assert(is_groq_profile(n.api_profiles[m]));
    }
}

proof fn lemma_normalized_profiles_in_range(s: SettingsView)
    ensures
        forall|i: int|
            0 <= i < normalized_settings(s).api_profiles.len() ==> {
                let p = #[trigger] normalized_settings(s).api_profiles[i];
                &&& 0 <= p.temperature_tenths <= 10
                &&& 5 <= p.request_timeout_seconds <= 600
                &&& p.name.len() > 0
            },
        forall|i: int, j: int|
            0 <= i < j < normalized_settings(s).api_profiles.len() ==> !eq_ignore_case(
                (#[trigger] normalized_settings(s).api_profiles[i]).name,
                (#[trigger] normalized_settings(s).api_profiles[j]).name,
            ),
{
    let c = clamped_settings(s);
    let ps = with_builtin_profiles(c.api_profiles);
    let n = normalized_settings(s);
    lemma_builtins_present(c.api_profiles);
    law_unique_names(ps);
    assert forall|i: int| 0 <= i < n.api_profiles.len() implies {
        let p = #[trigger] n.api_profiles[i];
        &&& 0 <= p.temperature_tenths <= 10
        &&& 5 <= p.request_timeout_seconds <= 600
        &&& p.name.len() > 0
    } by {
        assert(n.api_profiles[i].temperature_tenths == ps[i].temperature_tenths);
        assert(n.api_profiles[i].request_timeout_seconds == ps[i].request_timeout_seconds);
        let p = ps[i];
        if exists|j: int| 0 <= j < c.api_profiles.len() && p == c.api_profiles[j] {
            let j = choose|j: int| 0 <= j < c.api_profiles.len() && p == c.api_profiles[j];
            assert(c.api_profiles[j] == normalized_profile(s.api_profiles[j]));
        }
    }
}

/// Normalized settings are usable: their numbers lie in range, the log level
/// is a known one, the built-in ai2npu and Groq profiles are present, the
/// active id names a profile, and every profile has a name that no other
/// profile has (up to ASCII case).
pub proof fn law_normalized_settings_are_usable(s: SettingsView)
    ensures
        ({
            let n = normalized_settings(s);
            &&& n.settings_version == 8
            &&& n.silence_threshold_percent <= 100
            &&& 100 <= n.silence_timeout_milliseconds <= 30_000
            &&& 1 <= n.max_recording_seconds <= 3600
            &&& n.delay_before_paste_milliseconds <= 5000
            &&& n.delay_before_clipboard_restore_milliseconds <= 30_000
            &&& n.launch_minimized_to_tray
            &&& n.show_floating_recording_window
            &&& (n.log_level == "Debug"@ || n.log_level == "Warning"@ || n.log_level == "Error"@
                || n.log_level == "Information"@)
            &&& n.api_profiles.len() > 0
            &&& has_id(n.api_profiles, n.active_api_profile_id)
            &&& has_ai2npu(n.api_profiles)
            &&& has_groq(n.api_profiles)
            &&& forall|i: int|
                0 <= i < n.api_profiles.len() ==> {
                    let p = #[trigger] n.api_profiles[i];
                    &&& 0 <= p.temperature_tenths <= 10
                    &&& 5 <= p.request_timeout_seconds <= 600
                    &&& p.name.len() > 0
                }
            &&& forall|i: int, j: int|
                0 <= i < j < n.api_profiles.len() ==> !eq_ignore_case(
                    (#[trigger] n.api_profiles[i]).name,
                    (#[trigger] n.api_profiles[j]).name,
                )
        }),
{
    lemma_normalized_active_exists(s);
    lemma_normalized_ai2npu(s);
    lemma_normalized_groq(s);
    lemma_normalized_profiles_in_range(s);
}


// ---------------------------------------------------------------------------
// Normalizing again
// ---------------------------------------------------------------------------

/// The name a profile asks for is not blank and neither starts nor ends with
/// white space.
proof fn lemma_base_name_shape(p: ProfileView, index: nat)
    ensures
        base_name(p, index).len() > 0,
        !is_ws(base_name(p, index)[0]),
        !is_ws(base_name(p, index).last()),
{
    reveal_strlit("profile-");
    if trim(p.name).len() > 0 {
        crate::text::lemma_trim_ends(p.name);
    } else if trim(p.id).len() > 0 {
        crate::text::lemma_trim_ends(p.id);
    } else {
        let d = decimal(index + 1);
        crate::text::lemma_decimal_digits(index + 1);
        let b = "profile-"@ + d;
        assert(b[0] == 'p');
        assert(b.last() == d[d.len() - 1]);
        assert(crate::text::is_ascii_digit(d[d.len() - 1]));
    }
}

/// Every candidate for such a name has the same shape.
proof fn lemma_candidate_shape(base: Seq<char>, k: nat)
    requires
        base.len() > 0,
        !is_ws(base[0]),
        !is_ws(base.last()),
    ensures
        name_candidate(base, k).len() > 0,
        !is_ws(name_candidate(base, k)[0]),
        !is_ws(name_candidate(base, k).last()),
{
    if k > 1 {
        reveal_strlit(" (");
        reveal_strlit(")");
        let c = name_candidate(base, k);
        assert(c[0] == base[0]);
        assert(c.last() == ')');
    }
}

/// Renamed profiles have names that trimming leaves alone.
proof fn lemma_renamed_is_trimmed(ps: Seq<ProfileView>, i: int)
    requires
        0 <= i < ps.len(),
    ensures
        trim(with_unique_names(ps)[i].name) == with_unique_names(ps)[i].name,
{
    let used = unique_names(ps, i as nat);
    lemma_unique_names_prefix(ps, ps.len(), (i + 1) as nat);
    lemma_unique_names_prefix(ps, (i + 1) as nat, i as nat);
    lemma_unique_names_prefix(ps, i as nat, i as nat);
    let base = base_name(ps[i], i as nat);
    assert(with_unique_names(ps)[i].name == free_name(base, used));
    lemma_base_name_shape(ps[i], i as nat);
    lemma_free_name_number(base, used, 1, used.len());
    let k = free_name_number(base, used, 1, used.len());
    lemma_candidate_shape(base, k);
    crate::text::lemma_trim_fixed(name_candidate(base, k));
}

/// Profiles whose names are already non-blank, trimmed and distinct up to
/// case keep their names when renamed.
proof fn lemma_unique_names_kept(ps: Seq<ProfileView>, m: nat)
    requires
        m <= ps.len(),
        forall|i: int| 0 <= i < ps.len() ==> (#[trigger] ps[i]).name.len() > 0 && trim(ps[i].name) == ps[i].name,
        forall|i: int, j: int|
            0 <= i < j < ps.len() ==> !eq_ignore_case((#[trigger] ps[i]).name, (#[trigger] ps[j]).name),
    ensures
        unique_names(ps, m).len() == m,
        forall|i: int| 0 <= i < m ==> #[trigger] unique_names(ps, m)[i] == ps[i].name,
    decreases m,
{
    if m > 0 {
        lemma_unique_names_kept(ps, (m - 1) as nat);
        let used = unique_names(ps, (m - 1) as nat);
        let last = m - 1;
        let name = ps[last].name;
        assert(base_name(ps[last], last as nat) == name);
        if name_taken(used, name) {
            let i = choose|i: int| 0 <= i < used.len() && eq_ignore_case(#[trigger] used[i], name);
            assert(used[i] == ps[i].name);
        }
        assert(name_candidate(name, 1) == name);
        assert(free_name(name, used) == name);
    }
}

/// Normalizing picks the active id of `n` again: `n`'s active id is not
/// blank and names a profile, or it is the blank id that normalization picks
/// for `n`'s profiles anyway.
pub open spec fn keeps_active_choice(n: SettingsView) -> bool {
    chosen_active_id(n.active_api_profile_id, n.api_profiles) == n.active_api_profile_id
}

/// When normalization gives the active profile an id that is not blank, it
/// picks that profile again.
pub proof fn law_nonblank_active_is_kept(s: SettingsView)
    requires
        normalized_settings(s).active_api_profile_id.len() > 0,
    ensures
        keeps_active_choice(normalized_settings(s)),
{
    law_normalized_settings_are_usable(s);
}

/// Normalizing settings that were normalized already changes nothing, as long
/// as normalization would pick the same active profile again (which it always
/// does when the active profile's id is not blank).
pub proof fn law_normalization_is_stable(s: SettingsView)
    requires
        keeps_active_choice(normalized_settings(s)),
    ensures
        normalized_settings(normalized_settings(s)) == normalized_settings(s),
{
    let c0 = clamped_settings(s);
    let ps0 = with_builtin_profiles(c0.api_profiles);
    let n = normalized_settings(s);
    law_normalized_settings_are_usable(s);
    let c = clamped_settings(n);
    crate::hotkeys::matcher::law_normalized_hotkey_is_canonical(s.hotkey);
    crate::hotkeys::matcher::lemma_default_hotkey_canonical();
    assert(c.hotkey == n.hotkey);
    reveal_strlit("Debug");
    reveal_strlit("Warning");
    reveal_strlit("Error");
    reveal_strlit("Information");
    assert(c.log_level == n.log_level);
    let ps = n.api_profiles;
    assert(c.api_profiles =~= ps) by {
        assert forall|i: int| 0 <= i < ps.len() implies c.api_profiles[i] == ps[i] by {
            let p = ps[i];
            assert(normalized_profile(p) == p);
        }
    }
    assert(with_builtin_profiles(c.api_profiles) == ps);
    assert forall|i: int| 0 <= i < ps.len() implies (#[trigger] ps[i]).name.len() > 0 && trim(ps[i].name)
        == ps[i].name by {
        lemma_renamed_is_trimmed(ps0, i);
    }
    lemma_unique_names_kept(ps, ps.len());
    assert(with_unique_names(ps) =~= ps);
    let m = normalized_settings(n);
    assert(m.api_profiles == ps);
    assert(m.active_api_profile_id == n.active_api_profile_id);
    assert(m == n);
}


// ---------------------------------------------------------------------------
// Which profiles normalization keeps and adds
// ---------------------------------------------------------------------------

/// The built-in ai2npu profile is not a Groq profile.
proof fn lemma_ai2npu_not_groq()
    ensures
        !is_groq_profile(ai2npu_profile_view()),
{
    reveal_strlit("ai2npu");
    reveal_strlit("groq");
    reveal_strlit("groq.com");
    reveal_strlit("http://localhost:9555");
    let p = ai2npu_profile_view();
    assert(lower(p.name).len() == 6);
    assert(lower("groq"@).len() == 4);
    let url = lower(p.base_url);
    let needle = "groq.com"@;
    assert(url.len() == 21);
    if contains(url, needle) {
        let i = choose|i: int| 0 <= i && i + needle.len() <= url.len() && #[trigger] url.subrange(i, i + needle.len()) == needle;
        assert(url.subrange(i, i + 8)[0] == 'g');
        assert(url[i] == 'g');
        assert(url[i] == ascii_lower(p.base_url[i]));
        assert(0 <= i < 14);
        assert(p.base_url[0] == 'h' && p.base_url[1] == 't' && p.base_url[2] == 't' && p.base_url[3] == 'p'
            && p.base_url[4] == ':' && p.base_url[5] == '/' && p.base_url[6] == '/' && p.base_url[7] == 'l'
            && p.base_url[8] == 'o' && p.base_url[9] == 'c' && p.base_url[10] == 'a' && p.base_url[11] == 'l'
            && p.base_url[12] == 'h' && p.base_url[13] == 'o');
    }
}

proof fn lemma_builtin_checks_keep_to_fields(ps: Seq<ProfileView>, qs: Seq<ProfileView>)
    requires
        ps.len() == qs.len(),
        forall|k: int|
            0 <= k < ps.len() ==> (#[trigger] ps[k]).id == qs[k].id && ps[k].name == qs[k].name
                && ps[k].base_url == qs[k].base_url,
    ensures
        has_ai2npu(ps) == has_ai2npu(qs),
        has_groq(ps) == has_groq(qs),
{
    if has_ai2npu(ps) {
        let i = choose|i: int| 0 <= i < ps.len() && is_ai2npu_profile(#[trigger] ps[i]);
        assert(is_ai2npu_profile(qs[i]));
    }
    if has_ai2npu(qs) {
        let i = choose|i: int| 0 <= i < qs.len() && is_ai2npu_profile(#[trigger] qs[i]);
        assert(is_ai2npu_profile(ps[i]));
    }
    if has_groq(ps) {
        let i = choose|i: int| 0 <= i < ps.len() && is_groq_profile(#[trigger] ps[i]);
        assert(is_groq_profile(qs[i]));
    }
    if has_groq(qs) {
        let i = choose|i: int| 0 <= i < qs.len() && is_groq_profile(#[trigger] qs[i]);
        assert(is_groq_profile(ps[i]));
    }
}

/// Normalization keeps the given profiles in their order, as a prefix, with
/// their ids, servers, models and languages, and after them appends only the
/// built-in profiles that are missing: ai2npu unless some profile has the id
/// `ai2npu` or a name equal to `ai2npu` up to case, then Groq unless some
/// profile is named `groq` up to case or has a base URL containing
/// `groq.com`.
pub proof fn law_normalization_keeps_profiles_and_adds_missing_builtins(s: SettingsView)
    ensures
        ({
            let ps = s.api_profiles;
            let n = normalized_settings(s).api_profiles;
            &&& n.len() >= ps.len()
            &&& forall|k: int|
                0 <= k < ps.len() ==> (#[trigger] n[k]).id == ps[k].id && n[k].base_url == ps[k].base_url
                    && n[k].model == ps[k].model && n[k].language == ps[k].language
            &&& n.skip(ps.len() as int).map_values(|p: ProfileView| p.id) == (if has_ai2npu(ps) {
                Seq::<Seq<char>>::empty()
            } else {
                seq!["ai2npu"@]
            }) + (if has_groq(ps) {
                Seq::<Seq<char>>::empty()
            } else {
                seq!["groq"@]
            })
        }),
{
    let ps = s.api_profiles;
    let m = ps.len() as int;
    let c = clamped_settings(s).api_profiles;
    assert forall|k: int| 0 <= k < c.len() implies (#[trigger] c[k]) == normalized_profile(ps[k]) by {}
    lemma_builtin_checks_keep_to_fields(ps, c);
    lemma_ai2npu_not_groq();
    reveal_strlit("ai2npu");
    reveal_strlit("groq");
    let ai = ai2npu_profile_view();
    let gq = groq_profile_view();
    assert(is_ai2npu_profile(ai));
    let a = if c.len() == 0 {
        seq![ai]
    } else {
        c
    };
    let b = if has_ai2npu(a) {
        a
    } else {
        a.push(ai)
    };
    let w = with_builtin_profiles(c);
    if c.len() == 0 {
        assert(has_ai2npu(a)) by {
            assert(is_ai2npu_profile(a[0]));
        }
        assert(!has_groq(a)) by {
            if has_groq(a) {
                let i = choose|i: int| 0 <= i < a.len() && is_groq_profile(#[trigger] a[i]);
                assert(a[i] == ai);
            }
        }
    }
    if !has_ai2npu(a) {
        assert(has_groq(b) == has_groq(a)) by {
            if has_groq(b) {
                let i = choose|i: int| 0 <= i < b.len() && is_groq_profile(#[trigger] b[i]);
                if i < a.len() {
                    assert(b[i] == a[i]);
                } else {
                    assert(b[i] == ai);
                }
            }
            if has_groq(a) {
                let i = choose|i: int| 0 <= i < a.len() && is_groq_profile(#[trigger] a[i]);
                assert(b[i] == a[i]);
            }
        }
    }
    assert(has_ai2npu(ps) ==> c.len() > 0) by {
        if has_ai2npu(ps) {
            let i = choose|i: int| 0 <= i < ps.len() && is_ai2npu_profile(#[trigger] ps[i]);
        }
    }
    assert(has_groq(ps) ==> c.len() > 0) by {
        if has_groq(ps) {
            let i = choose|i: int| 0 <= i < ps.len() && is_groq_profile(#[trigger] ps[i]);
        }
    }
    assert forall|k: int| 0 <= k < m implies #[trigger] w[k] == c[k] by {
        assert(a[k] == c[k]);
        assert(b[k] == a[k]);
    }
    let n = normalized_settings(s).api_profiles;
    law_unique_names(w);
    assert(n == with_unique_names(w));
    assert forall|k: int| 0 <= k < w.len() implies (#[trigger] n[k]).base_url == w[k].base_url && n[k].model
        == w[k].model && n[k].language == w[k].language && n[k].id == w[k].id by {}
    let tail = n.skip(m).map_values(|p: ProfileView| p.id);
    let expected = (if has_ai2npu(ps) {
        Seq::<Seq<char>>::empty()
    } else {
        seq!["ai2npu"@]
    }) + (if has_groq(ps) {
        Seq::<Seq<char>>::empty()
    } else {
        seq!["groq"@]
    });
    assert(w.len() == m + expected.len());
    assert forall|j: int| 0 <= j < expected.len() implies #[trigger] tail[j] == expected[j] by {
        assert(tail[j] == n[m + j].id);
        assert(n[m + j].id == w[m + j].id);
    }
    assert(tail =~= expected);
}


/// Normalization keeps each known log level (`Debug`, `Warning`, `Error`,
/// `Information`) and turns any other value into `Information`.
pub proof fn law_known_log_levels_are_kept(s: SettingsView)
    ensures
        s.log_level == "Debug"@ ==> normalized_settings(s).log_level == "Debug"@,
        s.log_level == "Warning"@ ==> normalized_settings(s).log_level == "Warning"@,
        s.log_level == "Error"@ ==> normalized_settings(s).log_level == "Error"@,
        s.log_level == "Information"@ ==> normalized_settings(s).log_level == "Information"@,
        s.log_level != "Debug"@ && s.log_level != "Warning"@ && s.log_level != "Error"@
            ==> normalized_settings(s).log_level == "Information"@,
{
    reveal_strlit("Debug");
    reveal_strlit("Warning");
    reveal_strlit("Error");
    reveal_strlit("Information");
    assert("Debug"@.len() == 5 && "Debug"@[0] == 'D');
    assert("Warning"@.len() == 7);
    assert("Error"@.len() == 5 && "Error"@[0] == 'E');
    assert("Information"@.len() == 11);
}

} // verus!
