//! What the settings window shows and what it reports back: option lists with
//! the current value first, localized labels, captured hotkeys, and the
//! commands and edits the window sends to the runtime.
use crate::hotkeys::matcher::{normalize_hotkey, normalized_hotkey};
use crate::settings::{
    active_profile_of, AppLanguage, AppSettings, RecordingMode, SettingsView, AI2NPU_DEFAULT_MODEL,
};
use crate::text::{
    ascii_upper, chars_of, is_ascii_alphanumeric, push_str, str_eq, string_from, string_of, trim,
    trim_chars, upper_char,
};
use vstd::prelude::*;

verus! {

/// A request from the settings window.
#[derive(Clone, Debug, PartialEq, Eq)]
pub enum UiCommand {
    SettingsChanged,
    AddApiProfile,
    DeleteApiProfile,
    SelectApiProfile(String),
    OpenLogsFolder,
}

/// The values the settings window holds, as the user typed them.
///
/// The temperature box is read as a number and rounded to tenths by the
/// window (`None` when it does not hold a number); every other number is kept
/// as typed text.
#[derive(Clone, Debug, PartialEq, Eq)]
pub struct SettingsEdit {
    pub profile_name: String,
    pub base_url: String,
    pub api_key: String,
    pub model: String,
    pub temperature_tenths: Option<i64>,
    pub request_timeout_seconds: String,
    pub transcription_hotkey: String,
    pub recording_mode: String,
    pub silence_threshold_percent: String,
    pub silence_timeout_milliseconds: String,
    pub max_recording_seconds: String,
    pub start_with_windows: bool,
    pub ui_language: String,
    pub enable_sounds: bool,
    pub restore_clipboard_content: bool,
    pub delay_before_paste_milliseconds: String,
    pub delay_before_clipboard_restore_milliseconds: String,
    pub log_level: String,
}

// ---------------------------------------------------------------------------
// Option lists
// ---------------------------------------------------------------------------

/// The model shown for a profile: its trimmed model, or the default model.
pub open spec fn model_label_of(model: Seq<char>) -> Seq<char> {
    if trim(model).len() == 0 {
        AI2NPU_DEFAULT_MODEL@
    } else {
        trim(model)
    }
}

pub open spec fn views_of(v: Seq<String>) -> Seq<Seq<char>> {
    v.map_values(|s: String| s@)
}

/// `values` followed by the trimmed, non-blank `options` not yet present.
pub open spec fn add_trimmed_options(values: Seq<Seq<char>>, options: Seq<Seq<char>>) -> Seq<
    Seq<char>,
>
    decreases options.len(),
{
    if options.len() == 0 {
        values
    } else {
        let prev = add_trimmed_options(values, options.drop_last());
        let t = trim(options.last());
        if t.len() > 0 && !prev.contains(t) {
            prev.push(t)
        } else {
            prev
        }
    }
}

/// `values` followed by the `options` not yet present.
pub open spec fn add_options(values: Seq<Seq<char>>, options: Seq<Seq<char>>) -> Seq<Seq<char>>
    decreases options.len(),
{
    if options.len() == 0 {
        values
    } else {
        let prev = add_options(values, options.drop_last());
        if !prev.contains(options.last()) {
            prev.push(options.last())
        } else {
            prev
        }
    }
}

/// `values` followed by the profile names that are not blank and not yet present.
pub open spec fn add_profile_names(values: Seq<Seq<char>>, names: Seq<Seq<char>>) -> Seq<Seq<char>>
    decreases names.len(),
{
    if names.len() == 0 {
        values
    } else {
        let prev = add_profile_names(values, names.drop_last());
        let n = names.last();
        if trim(n).len() > 0 && !prev.contains(n) {
            prev.push(n)
        } else {
            prev
        }
    }
}

/// The model label of a profile model.
pub fn model_label(model: &str) -> (r: String)
    ensures
        r@ == model_label_of(model@),
{
    let cs = chars_of(model);
    let t = trim_chars(cs.as_slice());
    if t.len() == 0 {
        string_from(AI2NPU_DEFAULT_MODEL)
    } else {
        string_of(t.as_slice())
    }
}

fn contains_string(values: &Vec<String>, x: &str) -> (r: bool)
    ensures
        r == views_of(values@).contains(x@),
{
    let mut i: usize = 0;
    while i < values.len()
        invariant
            0 <= i <= values.len(),
            forall|k: int| 0 <= k < i ==> (#[trigger] values@[k])@ != x@,
        decreases values.len() - i,
    {
        if str_eq(values[i].as_str(), x) {
            proof {
                assert(views_of(values@)[i as int] == x@);
            }
            return true;
        }
        i = i + 1;
    }
    proof {
        if views_of(values@).contains(x@) {
            let k = choose|k: int| 0 <= k < views_of(values@).len() && views_of(values@)[k] == x@;
            assert(values@[k]@ == x@);
        }
    }
    false
}

/// The model choices: the current model first, then each trimmed, non-blank
/// option that is not already listed.
pub fn model_options_for_display(current_model: &str, options: &[String]) -> (r: Vec<String>)
    ensures
        views_of(r@) == add_trimmed_options(seq![model_label_of(current_model@)], views_of(options@)),
{
    let mut values: Vec<String> = Vec::new();
    values.push(model_label(current_model));
    proof {
        assert(views_of(values@) =~= seq![model_label_of(current_model@)]);
        assert(views_of(options@).take(0) =~= Seq::<Seq<char>>::empty());
    }
    let mut i: usize = 0;
    while i < options.len()
        invariant
            0 <= i <= options.len(),
            views_of(values@) == add_trimmed_options(
                seq![model_label_of(current_model@)],
                views_of(options@).take(i as int),
            ),
        decreases options.len() - i,
    {
        let cs = chars_of(options[i].as_str());
        let t = trim_chars(cs.as_slice());
        let ts = string_of(t.as_slice());
        proof {
            assert(views_of(options@).take(i + 1).drop_last() =~= views_of(options@).take(i as int));
            assert(views_of(options@).take(i + 1).last() == options@[i as int]@);
        }
        if t.len() > 0 && !contains_string(&values, ts.as_str()) {
            let ghost before = views_of(values@);
            values.push(ts);
            proof {
                assert(views_of(values@) =~= before.push(ts@));
            }
        }
        i = i + 1;
    }
    proof {
        assert(views_of(options@).take(options.len() as int) =~= views_of(options@));
    }
    values
}

/// `current` first, then each of `options` that is not already listed.
pub fn current_first(current: &str, options: &[&str]) -> (r: Vec<String>)
    ensures
        views_of(r@) == add_options(seq![current@], options@.map_values(|o: &str| o@)),
{
    let ghost opts = options@.map_values(|o: &str| o@);
    let mut values: Vec<String> = Vec::new();
    values.push(string_from(current));
    proof {
        assert(views_of(values@) =~= seq![current@]);
        assert(opts.take(0) =~= Seq::<Seq<char>>::empty());
    }
    let mut i: usize = 0;
    while i < options.len()
        invariant
            0 <= i <= options.len(),
            opts == options@.map_values(|o: &str| o@),
            views_of(values@) == add_options(seq![current@], opts.take(i as int)),
        decreases options.len() - i,
    {
        proof {
            assert(opts.take(i + 1).drop_last() =~= opts.take(i as int));
            assert(opts.take(i + 1).last() == options@[i as int]@);
        }
        if !contains_string(&values, options[i]) {
            let ghost before = views_of(values@);
            values.push(string_from(options[i]));
            proof {
                assert(views_of(values@) =~= before.push(options@[i as int]@));
            }
        }
        i = i + 1;
    }
    proof {
        assert(opts.take(options.len() as int) =~= opts);
    }
    values
}

/// The profile choices: the active profile's name first, then every other
/// non-blank profile name not already listed.
pub fn api_profile_options_for_display(settings: &AppSettings) -> (r: Vec<String>)
    ensures
        views_of(r@) == add_profile_names(
            seq![active_profile_of(settings@).name],
            settings@.api_profiles.map_values(|p: crate::settings::ProfileView| p.name),
        ),
{
    let ghost names = settings@.api_profiles.map_values(|p: crate::settings::ProfileView| p.name);
    let active = settings.active_profile();
    let mut values: Vec<String> = Vec::new();
    values.push(active.name);
    proof {
        assert(views_of(values@) =~= seq![active_profile_of(settings@).name]);
        assert(names.take(0) =~= Seq::<Seq<char>>::empty());
    }
    let mut i: usize = 0;
    while i < settings.api_profiles.len()
        invariant
            0 <= i <= settings.api_profiles.len(),
            names == settings@.api_profiles.map_values(|p: crate::settings::ProfileView| p.name),
            views_of(values@) == add_profile_names(
                seq![active_profile_of(settings@).name],
                names.take(i as int),
            ),
        decreases settings.api_profiles.len() - i,
    {
        let name = &settings.api_profiles[i].name;
        proof {
            assert(names.take(i + 1).drop_last() =~= names.take(i as int));
            assert(names.take(i + 1).last() == name@);
        }
        let cs = chars_of(name.as_str());
        let t = trim_chars(cs.as_slice());
        if t.len() > 0 && !contains_string(&values, name.as_str()) {
            let ghost before = views_of(values@);
            values.push(name.clone());
            proof {
                assert(views_of(values@) =~= before.push(name@));
            }
        }
        i = i + 1;
    }
    proof {
        assert(names.take(settings.api_profiles.len() as int) =~= names);
    }
    values
}

// ---------------------------------------------------------------------------
// Localized labels
// ---------------------------------------------------------------------------

pub open spec fn recording_mode_label(mode: RecordingMode, language: AppLanguage) -> Seq<char> {
    match (language, mode) {
        (AppLanguage::Russian, RecordingMode::Toggle) => "Переключатель"@,
        (AppLanguage::Russian, RecordingMode::Hold) => "Удержание"@,
        (AppLanguage::Russian, RecordingMode::SilenceTimeout) => "Тишина"@,
        (_, RecordingMode::Toggle) => "Toggle"@,
        (_, RecordingMode::Hold) => "Hold"@,
        (_, RecordingMode::SilenceTimeout) => "SilenceTimeout"@,
    }
}

pub open spec fn log_level_label(level: Seq<char>, language: AppLanguage) -> Seq<char> {
    match language {
        AppLanguage::Russian => if level == "Debug"@ {
            "Отладка"@
        } else if level == "Warning"@ {
            "Предупреждения"@
        } else if level == "Error"@ {
            "Ошибки"@
        } else {
            "Инфо"@
        },
        AppLanguage::English => if level == "Debug"@ {
            "Debug"@
        } else if level == "Warning"@ {
            "Warning"@
        } else if level == "Error"@ {
            "Error"@
        } else {
            "Information"@
        },
    }
}

pub open spec fn language_name(language: AppLanguage) -> Seq<char> {
    match language {
        AppLanguage::Russian => "Русский"@,
        AppLanguage::English => "English"@,
    }
}

/// The label of a recording mode in the given UI language.
pub fn recording_mode_display_label(mode: RecordingMode, language: AppLanguage) -> (r: &'static str)
    ensures
        r@ == recording_mode_label(mode, language),
{
    match (language, mode) {
        (AppLanguage::Russian, RecordingMode::Toggle) => "Переключатель",
        (AppLanguage::Russian, RecordingMode::Hold) => "Удержание",
        (AppLanguage::Russian, RecordingMode::SilenceTimeout) => "Тишина",
        (_, RecordingMode::Toggle) => "Toggle",
        (_, RecordingMode::Hold) => "Hold",
        (_, RecordingMode::SilenceTimeout) => "SilenceTimeout",
    }
}

/// The label of a log level in the given UI language.
pub fn log_level_display_label(level: &str, language: AppLanguage) -> (r: &'static str)
    ensures
        r@ == log_level_label(level@, language),
{
    let debug = str_eq(level, "Debug");
    let warning = str_eq(level, "Warning");
    let error = str_eq(level, "Error");
    match language {
        AppLanguage::Russian => if debug {
            "Отладка"
        } else if warning {
            "Предупреждения"
        } else if error {
            "Ошибки"
        } else {
            "Инфо"
        },
        AppLanguage::English => if debug {
            "Debug"
        } else if warning {
            "Warning"
        } else if error {
            "Error"
        } else {
            "Information"
        },
    }
}

/// The name of a UI language, written in that language.
pub fn language_label(language: AppLanguage) -> (r: &'static str)
    ensures
        r@ == language_name(language),
{
    match language {
        AppLanguage::Russian => "Русский",
        AppLanguage::English => "English",
    }
}

pub open spec fn recording_mode_names(language: AppLanguage) -> Seq<Seq<char>> {
    match language {
        AppLanguage::Russian => seq!["Переключатель"@, "Удержание"@, "Тишина"@],
        AppLanguage::English => seq!["Toggle"@, "Hold"@, "SilenceTimeout"@],
    }
}

pub open spec fn log_level_names(language: AppLanguage) -> Seq<Seq<char>> {
    match language {
        AppLanguage::Russian => seq!["Инфо"@, "Отладка"@, "Предупреждения"@, "Ошибки"@],
        AppLanguage::English => seq!["Information"@, "Debug"@, "Warning"@, "Error"@],
    }
}

/// The recording-mode choices, the current mode first.
pub fn recording_mode_options_for_display(mode: RecordingMode, language: AppLanguage) -> (r: Vec<
    String,
>)
    ensures
        views_of(r@) == add_options(
            seq![recording_mode_label(mode, language)],
            recording_mode_names(language),
        ),
{
    let names: [&str; 3] = match language {
        AppLanguage::Russian => ["Переключатель", "Удержание", "Тишина"],
        AppLanguage::English => ["Toggle", "Hold", "SilenceTimeout"],
    };
    let r = current_first(recording_mode_display_label(mode, language), &names);
    proof {
        assert(names@.map_values(|o: &str| o@) =~= recording_mode_names(language));
    }
    r
}

/// The log-level choices, the current level first.
pub fn log_level_options_for_display(level: &str, language: AppLanguage) -> (r: Vec<String>)
    ensures
        views_of(r@) == add_options(seq![log_level_label(level@, language)], log_level_names(language)),
{
    let names: [&str; 4] = match language {
        AppLanguage::Russian => ["Инфо", "Отладка", "Предупреждения", "Ошибки"],
        AppLanguage::English => ["Information", "Debug", "Warning", "Error"],
    };
    let r = current_first(log_level_display_label(level, language), &names);
    proof {
        assert(names@.map_values(|o: &str| o@) =~= log_level_names(language));
    }
    r
}

/// The language choices, the current language first.
pub fn language_options_for_display(language: AppLanguage) -> (r: Vec<String>)
    ensures
        views_of(r@) == add_options(seq![language_name(language)], seq!["Русский"@, "English"@]),
{
    let names: [&str; 2] = ["Русский", "English"];
    let r = current_first(language_label(language), &names);
    proof {
        assert(names@.map_values(|o: &str| o@) =~= seq!["Русский"@, "English"@]);
    }
    r
}

// ---------------------------------------------------------------------------
// Captured hotkeys
// ---------------------------------------------------------------------------

/// The key name for a single character the window reports, if it is a key
/// that can be part of a hotkey.
pub open spec fn char_key_name(c: char) -> Option<Seq<char>> {
    if c == '\u{0010}' || c == '\u{0011}' || c == '\u{0012}' || c == '\u{0013}' || c == '\u{0015}'
        || c == '\u{0016}' || c == '\u{0017}' || c == '\u{0018}' {
        None
    } else if c == '\u{0008}' {
        Some("Backspace"@)
    } else if c == '\u{0009}' {
        Some("Tab"@)
    } else if c == '\u{000a}' {
        Some("Enter"@)
    } else if c == '\u{001b}' {
        Some("Esc"@)
    } else if c == '\u{007f}' {
        Some("Delete"@)
    } else if c == ' ' {
        Some("Space"@)
    } else if c == '\u{F700}' {
        Some("Up"@)
    } else if c == '\u{F701}' {
        Some("Down"@)
    } else if c == '\u{F702}' {
        Some("Left"@)
    } else if c == '\u{F703}' {
        Some("Right"@)
    } else if '\u{F704}' <= c && c <= '\u{F71B}' {
        Some(seq!['F'] + crate::text::decimal(((c as u32) - 0xF704 + 1) as nat))
    } else if c == '\u{F727}' {
        Some("Insert"@)
    } else if c == '\u{F729}' {
        Some("Home"@)
    } else if c == '\u{F72B}' {
        Some("End"@)
    } else if c == '\u{F72C}' {
        Some("PageUp"@)
    } else if c == '\u{F72D}' {
        Some("PageDown"@)
    } else if is_ascii_alphanumeric(c) {
        Some(seq![ascii_upper(c)])
    } else {
        None
    }
}

/// The key name for what the window reports as the pressed key: a key text
/// that normalizes as a hotkey, else a single recognized character.
pub open spec fn captured_key(key: Seq<char>) -> Option<Seq<char>> {
    if trim(key).len() > 0 && normalized_hotkey(trim(key)) is Ok {
        Some(normalized_hotkey(trim(key))->Ok_0)
    } else if key.len() == 1 {
        char_key_name(key[0])
    } else {
        None
    }
}

fn char_key(c: char) -> (r: Option<String>)
    ensures
        match char_key_name(c) {
            Some(k) => r is Some && r->0@ == k,
            None => r is None,
        },
{
    if c == '\u{0010}' || c == '\u{0011}' || c == '\u{0012}' || c == '\u{0013}' || c == '\u{0015}'
        || c == '\u{0016}' || c == '\u{0017}' || c == '\u{0018}' {
        return None;
    }
    let name = if c == '\u{0008}' {
        "Backspace"
    } else if c == '\u{0009}' {
        "Tab"
    } else if c == '\u{000a}' {
        "Enter"
    } else if c == '\u{001b}' {
        "Esc"
    } else if c == '\u{007f}' {
        "Delete"
    } else if c == ' ' {
        "Space"
    } else if c == '\u{F700}' {
        "Up"
    } else if c == '\u{F701}' {
        "Down"
    } else if c == '\u{F702}' {
        "Left"
    } else if c == '\u{F703}' {
        "Right"
    } else if '\u{F704}' <= c && c <= '\u{F71B}' {
        let mut s = string_from("F");
        crate::text::push_decimal(&mut s, ((c as u32) - 0xF704 + 1) as u64);
        proof {
            reveal_strlit("F");
            assert(s@ =~= seq!['F'] + crate::text::decimal(((c as u32) - 0xF704 + 1) as nat));
        }
        return Some(s);
    } else if c == '\u{F727}' {
        "Insert"
    } else if c == '\u{F729}' {
        "Home"
    } else if c == '\u{F72B}' {
        "End"
    } else if c == '\u{F72C}' {
        "PageUp"
    } else if c == '\u{F72D}' {
        "PageDown"
    } else if ('0' <= c && c <= '9') || ('a' <= c && c <= 'z') || ('A' <= c && c <= 'Z') {
        let mut s = String::new();
        crate::text::push_char(&mut s, upper_char(c));
        proof {
            assert(s@ =~= seq![ascii_upper(c)]);
        }
        return Some(s);
    } else {
        return None;
    };
    Some(string_from(name))
}

/// The key name for a key press reported by the settings window.
pub fn captured_key_label(key: &str) -> (r: Option<String>)
    ensures
        match captured_key(key@) {
            Some(k) => r is Some && r->0@ == k,
            None => r is None,
        },
{
    let cs = chars_of(key);
    let named = trim_chars(cs.as_slice());
    if named.len() > 0 {
        let named_text = string_of(named.as_slice());
        if let Ok(hotkey) = normalize_hotkey(named_text.as_str()) {
            return Some(hotkey);
        }
    }
    if cs.len() != 1 {
        return None;
    }
    char_key(cs[0])
}

/// The text of a captured hotkey chord before normalization.
pub open spec fn captured_chord_text(
    key: Seq<char>,
    control: bool,
    alt: bool,
    shift: bool,
    meta: bool,
) -> Seq<char> {
    (if control {
        "Ctrl+"@
    } else {
        Seq::empty()
    }) + (if alt {
        "Alt+"@
    } else {
        Seq::empty()
    }) + (if shift {
        "Shift+"@
    } else {
        Seq::empty()
    }) + (if meta {
        "Win+"@
    } else {
        Seq::empty()
    }) + key
}

/// The message shown when a captured chord is not a valid hotkey.
pub open spec fn unsupported_hotkey_message() -> Seq<char> {
    "Неподдерживаемая горячая клавиша"@
}

/// The hotkey for a key press with the given modifiers held: `Ok(None)` when
/// the press is not a usable key (a lone modifier, for instance), the
/// normalized chord when it is valid, and an error message otherwise.
pub fn captured_hotkey_label(
    key: &str,
    control: bool,
    alt: bool,
    shift: bool,
    meta: bool,
) -> (r: Result<Option<String>, String>)
    ensures
        match captured_key(key@) {
            None => r == Ok::<Option<String>, String>(None),
            Some(k) => match normalized_hotkey(captured_chord_text(k, control, alt, shift, meta)) {
                Ok(h) => r is Ok && r->Ok_0 is Some && r->Ok_0->0@ == h,
                Err(_) => r is Err && r->Err_0@ == unsupported_hotkey_message(),
            },
        },
{
    let key = match captured_key_label(key) {
        Some(k) => k,
        None => return Ok(None),
    };
    let mut chord = String::new();
    if control {
        push_str(&mut chord, "Ctrl+");
    }
    let ghost a = chord@;
    if alt {
        push_str(&mut chord, "Alt+");
    }
    let ghost b = chord@;
    if shift {
        push_str(&mut chord, "Shift+");
    }
    let ghost c = chord@;
    if meta {
        push_str(&mut chord, "Win+");
    }
    push_str(&mut chord, key.as_str());
    proof {
        assert(chord@ =~= captured_chord_text(key@, control, alt, shift, meta));
    }
    match normalize_hotkey(chord.as_str()) {
        Ok(h) => Ok(Some(h)),
        Err(_) => Err(string_from("Неподдерживаемая горячая клавиша")),
    }
}


// ---------------------------------------------------------------------------
// Laws of the option lists
// ---------------------------------------------------------------------------

/// No value occurs twice.
pub open spec fn no_duplicates(values: Seq<Seq<char>>) -> bool {
    forall|i: int, j: int| 0 <= i < j < values.len() ==> values[i] != values[j]
}

proof fn lemma_push_new_keeps_distinct(prev: Seq<Seq<char>>, x: Seq<char>)
    requires
        no_duplicates(prev),
        !prev.contains(x),
    ensures
        no_duplicates(prev.push(x)),
{
    let next = prev.push(x);
    assert forall|i: int, j: int| 0 <= i < j < next.len() implies next[i] != next[j] by {
        if j == prev.len() {
            assert(next[i] == prev[i]);
            if prev[i] == x {
                assert(prev.contains(x));
            }
        } else {
            assert(next[i] == prev[i] && next[j] == prev[j]);
        }
    }
}

proof fn lemma_add_trimmed_options(values: Seq<Seq<char>>, options: Seq<Seq<char>>)
    requires
        no_duplicates(values),
    ensures
        no_duplicates(add_trimmed_options(values, options)),
        add_trimmed_options(values, options).len() >= values.len(),
        forall|i: int| 0 <= i < values.len() ==> add_trimmed_options(values, options)[i] == values[i],
    decreases options.len(),
{
    if options.len() > 0 {
        lemma_add_trimmed_options(values, options.drop_last());
        let prev = add_trimmed_options(values, options.drop_last());
        let t = trim(options.last());
        if t.len() > 0 && !prev.contains(t) {
            lemma_push_new_keeps_distinct(prev, t);
        }
    }
}

proof fn lemma_add_options(values: Seq<Seq<char>>, options: Seq<Seq<char>>)
    requires
        no_duplicates(values),
    ensures
        no_duplicates(add_options(values, options)),
        add_options(values, options).len() >= values.len(),
        forall|i: int| 0 <= i < values.len() ==> add_options(values, options)[i] == values[i],
    decreases options.len(),
{
    if options.len() > 0 {
        lemma_add_options(values, options.drop_last());
        let prev = add_options(values, options.drop_last());
        if !prev.contains(options.last()) {
            lemma_push_new_keeps_distinct(prev, options.last());
        }
    }
}

proof fn lemma_add_profile_names(values: Seq<Seq<char>>, names: Seq<Seq<char>>)
    requires
        no_duplicates(values),
    ensures
        no_duplicates(add_profile_names(values, names)),
        add_profile_names(values, names).len() >= values.len(),
        forall|i: int| 0 <= i < values.len() ==> add_profile_names(values, names)[i] == values[i],
    decreases names.len(),
{
    if names.len() > 0 {
        lemma_add_profile_names(values, names.drop_last());
        let prev = add_profile_names(values, names.drop_last());
        let n = names.last();
        if trim(n).len() > 0 && !prev.contains(n) {
            lemma_push_new_keeps_distinct(prev, n);
        }
    }
}

/// The model choices list the current model first and no model twice.
pub proof fn law_model_options_current_first_without_duplicates(
    current_model: Seq<char>,
    options: Seq<Seq<char>>,
)
    ensures
        add_trimmed_options(seq![model_label_of(current_model)], options)[0] == model_label_of(
            current_model,
        ),
        no_duplicates(add_trimmed_options(seq![model_label_of(current_model)], options)),
{
    let v = seq![model_label_of(current_model)];
    lemma_add_trimmed_options(v, options);
    assert(add_trimmed_options(v, options)[0] == v[0]);
}

/// A choice list built from a current value lists it first and nothing twice.
pub proof fn law_current_first_without_duplicates(current: Seq<char>, options: Seq<Seq<char>>)
    ensures
        add_options(seq![current], options)[0] == current,
        no_duplicates(add_options(seq![current], options)),
{
    let v = seq![current];
    lemma_add_options(v, options);
    assert(add_options(v, options)[0] == v[0]);
}

/// The profile choices list the active profile's name first and no name twice.
pub proof fn law_profile_options_active_first_without_duplicates(
    active_name: Seq<char>,
    names: Seq<Seq<char>>,
)
    ensures
        add_profile_names(seq![active_name], names)[0] == active_name,
        no_duplicates(add_profile_names(seq![active_name], names)),
{
    let v = seq![active_name];
    lemma_add_profile_names(v, names);
    assert(add_profile_names(v, names)[0] == v[0]);
}


// ---------------------------------------------------------------------------
// Laws of captured keys
// ---------------------------------------------------------------------------

/// A special key character captures as `k`, and with any modifiers held the
/// chord is the modifiers in canonical order followed by `k`.
proof fn lemma_special_capture(c: char, k: Seq<char>)
    requires
        char_key_name(c) == Some(k),
        crate::hotkeys::matcher::canonical_key(k),
        !crate::text::is_ws(c),
        !is_ascii_alphanumeric(c),
        c != '+',
    ensures
        captured_key(seq![c]) == Some(k),
        forall|control: bool, alt: bool, shift: bool, meta: bool|
            normalized_hotkey(#[trigger] captured_chord_text(k, control, alt, shift, meta))
                == Ok::<Seq<char>, crate::hotkeys::matcher::HotkeyFailure>(
                captured_chord_text(k, control, alt, shift, meta),
            ),
{
    let p = seq![c];
    assert(p[0] == c);
    crate::text::lemma_trim_fixed(p);
    crate::hotkeys::matcher::lemma_unknown_single_char(c);
    assert forall|control: bool, alt: bool, shift: bool, meta: bool|
        normalized_hotkey(#[trigger] captured_chord_text(k, control, alt, shift, meta))
            == Ok::<Seq<char>, crate::hotkeys::matcher::HotkeyFailure>(
            captured_chord_text(k, control, alt, shift, meta),
        ) by {
        let mods = crate::hotkeys::matcher::Modifiers { ctrl: control, alt, shift, win: meta };
        assert(captured_chord_text(k, control, alt, shift, meta) == crate::hotkeys::matcher::chord_text(
            mods,
            k,
        ));
        crate::hotkeys::matcher::lemma_chord_is_canonical(mods, k);
    }
}

/// Key character `c` captures as the key `k`, and with the given modifiers
/// held as the chord of those modifiers, in the order Ctrl, Alt, Shift, Win,
/// followed by `k`.
pub open spec fn captures_as(c: char, k: Seq<char>, control: bool, alt: bool, shift: bool, meta: bool) -> bool {
    &&& captured_key(seq![c]) == Some(k)
    &&& normalized_hotkey(captured_chord_text(k, control, alt, shift, meta))
        == Ok::<Seq<char>, crate::hotkeys::matcher::HotkeyFailure>(
        captured_chord_text(k, control, alt, shift, meta),
    )
}

/// The navigation and editing keys that the settings window reports as
/// private-use or control characters capture as their own names: the arrow
/// characters U+F700–U+F703 as `Up`, `Down`, `Left`, `Right`, U+F727 as
/// `Insert`, U+F729 as `Home`, U+F72B as `End`, U+F72C and U+F72D as
/// `PageUp` and `PageDown`, backspace as `Backspace`, escape as `Esc` and
/// delete as `Delete`, whatever modifiers are held (so Ctrl with U+F700
/// gives `Ctrl+Up`).
pub proof fn law_special_keys_capture_as_their_names(control: bool, alt: bool, shift: bool, meta: bool)
    ensures
        captures_as('\u{F700}', "Up"@, control, alt, shift, meta),
        captures_as('\u{F701}', "Down"@, control, alt, shift, meta),
        captures_as('\u{F702}', "Left"@, control, alt, shift, meta),
        captures_as('\u{F703}', "Right"@, control, alt, shift, meta),
        captures_as('\u{F727}', "Insert"@, control, alt, shift, meta),
        captures_as('\u{F729}', "Home"@, control, alt, shift, meta),
        captures_as('\u{F72B}', "End"@, control, alt, shift, meta),
        captures_as('\u{F72C}', "PageUp"@, control, alt, shift, meta),
        captures_as('\u{F72D}', "PageDown"@, control, alt, shift, meta),
        captures_as('\u{0008}', "Backspace"@, control, alt, shift, meta),
        captures_as('\u{001b}', "Esc"@, control, alt, shift, meta),
        captures_as('\u{007f}', "Delete"@, control, alt, shift, meta),
{
    lemma_special_capture('\u{F700}', "Up"@);
    lemma_special_capture('\u{F701}', "Down"@);
    lemma_special_capture('\u{F702}', "Left"@);
    lemma_special_capture('\u{F703}', "Right"@);
    lemma_special_capture('\u{F727}', "Insert"@);
    lemma_special_capture('\u{F729}', "Home"@);
    lemma_special_capture('\u{F72B}', "End"@);
    lemma_special_capture('\u{F72C}', "PageUp"@);
    lemma_special_capture('\u{F72D}', "PageDown"@);
    lemma_special_capture('\u{0008}', "Backspace"@);
    lemma_special_capture('\u{001b}', "Esc"@);
    lemma_special_capture('\u{007f}', "Delete"@);
}

/// The function-key characters U+F704–U+F71B capture as `F1`–`F24`, in order.
pub proof fn law_function_key_characters_capture_in_order(n: nat)
    requires
        1 <= n <= 24,
    ensures
        captured_key(seq![((0xF703 + n) as u32) as char]) == Some(seq!['F'] + crate::text::decimal(n)),
{
    let c = ((0xF703 + n) as u32) as char;
    assert('\u{F704}' <= c && c <= '\u{F71B}');
    assert((c as u32) - 0xF704 + 1 == n);
    assert(crate::hotkeys::matcher::canonical_key(seq!['F'] + crate::text::decimal(n)));
    lemma_special_capture(c, seq!['F'] + crate::text::decimal(n));
}


/// A white-space key character captures as `k`, with the same chords.
proof fn lemma_space_capture(c: char, k: Seq<char>)
    requires
        char_key_name(c) == Some(k),
        crate::hotkeys::matcher::canonical_key(k),
        crate::text::is_ws(c),
    ensures
        captures_as(c, k, false, false, false, false),
        forall|control: bool, alt: bool, shift: bool, meta: bool|
            #[trigger] captures_as(c, k, control, alt, shift, meta),
{
    let p = seq![c];
    assert(p.drop_first() =~= Seq::<char>::empty());
    assert(crate::text::trim_start(p) == crate::text::trim_start(Seq::<char>::empty()));
    assert(trim(p).len() == 0);
    assert forall|control: bool, alt: bool, shift: bool, meta: bool|
        #[trigger] captures_as(c, k, control, alt, shift, meta) by {
        let mods = crate::hotkeys::matcher::Modifiers { ctrl: control, alt, shift, win: meta };
        assert(captured_chord_text(k, control, alt, shift, meta) == crate::hotkeys::matcher::chord_text(
            mods,
            k,
        ));
        crate::hotkeys::matcher::lemma_chord_is_canonical(mods, k);
    }
}

/// The space bar, tab and return keys, which the settings window reports as
/// white-space characters, capture as `Space`, `Tab` and `Enter`, whatever
/// modifiers are held.
pub proof fn law_space_tab_and_return_capture_as_their_names(control: bool, alt: bool, shift: bool, meta: bool)
    ensures
        captures_as(' ', "Space"@, control, alt, shift, meta),
        captures_as('\u{0009}', "Tab"@, control, alt, shift, meta),
        captures_as('\u{000a}', "Enter"@, control, alt, shift, meta),
{
    lemma_space_capture(' ', "Space"@);
    lemma_space_capture('\u{0009}', "Tab"@);
    lemma_space_capture('\u{000a}', "Enter"@);
}

} // verus!
