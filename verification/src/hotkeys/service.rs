//! What the global hotkey backend registers, and how its key events become
//! hotkey actions.
use crate::hotkeys::matcher::{normalize_hotkey, normalized_hotkey, split, HotkeyError, HotkeyFailure};
use crate::text::{chars_eq, chars_of, push_str, string_from, string_of};
use vstd::prelude::*;

verus! {

#[verifier::external_type_specification]
#[verifier::external_body]
pub struct ExHotKey(global_hotkey::hotkey::HotKey);

#[verifier::external_type_specification]
#[verifier::external_body]
pub struct ExHotKeyParseError(global_hotkey::hotkey::HotKeyParseError);

/// The Copilot key chord, which a low-level keyboard hook watches instead of
/// the hotkey backend.
pub const COPILOT_CHORD: &'static str = "Shift+Win+F23";

/// A hotkey action handed to the recording workflow.
#[derive(Clone, Copy, Debug, PartialEq, Eq, Structural)]
pub enum HotkeyAction {
    TranscribePressed,
    Released,
    CopilotPressed,
    CopilotReleased,
}

/// A source of hotkey actions, polled once per tick.
pub trait HotkeyEvents {
    fn next_event(&mut self) -> Option<HotkeyAction>;
}

/// The hotkeys that the application registers.
#[derive(Debug, Clone, PartialEq, Eq)]
pub struct HotkeyRegistration {
    pub transcription: String,
}

impl HotkeyRegistration {
    /// A registration of the canonical form of `transcription`.
    pub fn new(transcription: &str) -> (r: Result<HotkeyRegistration, HotkeyError>)
        ensures
            match normalized_hotkey(transcription@) {
                Ok(k) => r matches Ok(reg) && reg.transcription@ == k,
                Err(e) => r matches Err(err) && err@ == e,
            },
    {
        match normalize_hotkey(transcription) {
            Ok(t) => Ok(HotkeyRegistration { transcription: t }),
            Err(e) => Err(e),
        }
    }
}

/// Whether `value` is the Copilot key, alone or as its chord.
pub open spec fn copilot_hotkey(value: Seq<char>) -> bool {
    value == "F23"@ || value == COPILOT_CHORD@
}

/// Whether `value` is the Copilot key, alone or as its chord.
pub fn is_copilot_hotkey(value: &str) -> (r: bool)
    ensures
        r == copilot_hotkey(value@),
{
    let cs = chars_of(value);
    let f23 = chars_of("F23");
    let chord = chars_of(COPILOT_CHORD);
    chars_eq(cs.as_slice(), f23.as_slice()) || chars_eq(cs.as_slice(), chord.as_slice())
}

/// The hotkeys handed to the backend: none for the Copilot chord, which the
/// keyboard hook serves, else the transcription hotkey.
pub open spec fn backend_hotkeys(transcription: Seq<char>) -> Seq<Seq<char>> {
    if transcription == COPILOT_CHORD@ {
        Seq::empty()
    } else {
        seq![transcription]
    }
}

/// The hotkeys handed to the global hotkey backend.
pub fn registered_hotkeys(registration: &HotkeyRegistration) -> (r: Vec<String>)
    ensures
        r.len() == backend_hotkeys(registration.transcription@).len(),
        forall|i: int|
            0 <= i < r.len() ==> #[trigger] r@[i]@ == backend_hotkeys(
                registration.transcription@,
            )[i],
{
    let cs = chars_of(registration.transcription.as_str());
    let chord = chars_of(COPILOT_CHORD);
    let mut r: Vec<String> = Vec::new();
    if !chars_eq(cs.as_slice(), chord.as_slice()) {
        r.push(string_from(registration.transcription.as_str()));
    }
    r
}

/// A hotkey part as the backend spells it: `Win` is `Super` there.
pub open spec fn backend_part(part: Seq<char>) -> Seq<char> {
    if part == "Win"@ {
        "Super"@
    } else {
        part
    }
}

/// The parts joined by `+`.
pub open spec fn join_parts(parts: Seq<Seq<char>>) -> Seq<char>
    decreases parts.len(),
{
    if parts.len() == 0 {
        Seq::empty()
    } else if parts.len() == 1 {
        parts[0]
    } else {
        join_parts(parts.drop_last()) + seq!['+'] + parts.last()
    }
}

/// Hotkey text as the backend spells it.
pub open spec fn backend_hotkey_text(value: Seq<char>) -> Seq<char> {
    join_parts(split(value, '+').map_values(|p: Seq<char>| backend_part(p)))
}

fn push_backend_part(out: &mut Vec<char>, part: &[char])
    ensures
        final(out)@ == old(out)@ + backend_part(part@),
{
    let win = chars_of("Win");
    proof {
        reveal_strlit("Win");
        reveal_strlit("Super");
    }
    if chars_eq(part, win.as_slice()) {
        let mut sup = chars_of("Super");
        out.append(&mut sup);
    } else {
        let mut i: usize = 0;
        let ghost start = out@;
        while i < part.len()
            invariant
                i <= part.len(),
                out@ == start + part@.take(i as int),
            decreases part.len() - i,
        {
            out.push(part[i]);
            proof {
                assert(part@.take(i + 1) == part@.take(i as int).push(part@[i as int]));
                assert(out@ =~= start + part@.take(i + 1));
            }
            i = i + 1;
        }
        proof {
            assert(part@.take(part.len() as int) =~= part@);
        }
    }
}

proof fn lemma_join_push(parts: Seq<Seq<char>>, x: Seq<char>)
    ensures
        join_parts(parts.push(x)) == if parts.len() == 0 {
            x
        } else {
            join_parts(parts) + seq!['+'] + x
        },
{
    assert(parts.push(x).drop_last() =~= parts);
}

/// Hotkey text as the global hotkey backend spells it (`Win` becomes `Super`).
pub fn global_hotkey_value(value: &str) -> (r: String)
    ensures
        r@ == backend_hotkey_text(value@),
{
    let cs = chars_of(value);
    let mut out: Vec<char> = Vec::new();
    let mut current: Vec<char> = Vec::new();
    let mut i: usize = 0;
    proof {
        assert(split(cs@.take(0), '+') =~= seq![Seq::<char>::empty()]);
    }
    while i < cs.len()
        invariant
            0 <= i <= cs.len(),
            split(cs@.take(i as int), '+').len() >= 1,
            current@ == split(cs@.take(i as int), '+').last(),
            out@ == (if split(cs@.take(i as int), '+').len() == 1 {
                Seq::<char>::empty()
            } else {
                join_parts(
                    split(cs@.take(i as int), '+').drop_last().map_values(
                        |p: Seq<char>| backend_part(p),
                    ),
                ) + seq!['+']
            }),
        decreases cs.len() - i,
    {
        let c = cs[i];
        let ghost prev = split(cs@.take(i as int), '+');
        let ghost out_before = out@;
        proof {
            assert(cs@.take(i + 1).drop_last() =~= cs@.take(i as int));
            assert(cs@.take(i + 1).last() == c);
        }
        if c == '+' {
            push_backend_part(&mut out, current.as_slice());
            out.push('+');
            current = Vec::new();
            proof {
                let next = split(cs@.take(i + 1), '+');
                assert(next == prev.push(Seq::<char>::empty()));
                assert(next.drop_last() =~= prev);
                let pd = prev.drop_last();
                assert(prev =~= pd.push(prev.last()));
                let f = |p: Seq<char>| backend_part(p);
                assert(prev.map_values(f) =~= pd.map_values(f).push(backend_part(prev.last())));
                lemma_join_push(pd.map_values(f), backend_part(prev.last()));
                assert(out@ =~= join_parts(next.drop_last().map_values(f)) + seq!['+']);
            }
        } else {
            current.push(c);
            proof {
                let next = split(cs@.take(i + 1), '+');
                assert(next == prev.update(prev.len() - 1, prev.last().push(c)));
                assert(next.drop_last() =~= prev.drop_last());
            }
        }
        i = i + 1;
    }
    let ghost out_before = out@;
    push_backend_part(&mut out, current.as_slice());
    proof {
        assert(cs@.take(cs.len() as int) =~= cs@);
        let parts = split(cs@, '+');
        let pd = parts.drop_last();
        assert(parts =~= pd.push(parts.last()));
        let f = |p: Seq<char>| backend_part(p);
        assert(parts.map_values(f) =~= pd.map_values(f).push(backend_part(parts.last())));
        lemma_join_push(pd.map_values(f), backend_part(parts.last()));
        assert(out@ =~= backend_hotkey_text(value@));
    }
    string_of(out.as_slice())
}

/// Whether the global hotkey backend accepts `text` as a hotkey
/// (`global_hotkey::hotkey::HotKey::from_str`).
pub uninterp spec fn backend_accepts(text: Seq<char>) -> bool;

/// The id (`HotKey::id`) of the hotkey that the global hotkey backend parses
/// from `text`, for the canonical texts the library spells for it.
pub uninterp spec fn backend_hotkey_id(text: Seq<char>) -> u32;

/// The hotkey text is a canonical hotkey spelled for the backend: modifiers
/// among `Ctrl`, `Alt`, `Shift`, `Super` and one canonical key, so no
/// spelling whose meaning depends on the platform (such as `CmdOrCtrl`).
pub open spec fn canonical_backend_text(text: Seq<char>) -> bool {
    exists|k: Seq<char>|
        normalized_hotkey(k) == Ok::<Seq<char>, HotkeyFailure>(k) && text == #[trigger] backend_hotkey_text(k)
}

/// Parses hotkey text with `global_hotkey::hotkey::HotKey::from_str` and
/// hands out the hotkey with its `id` field.
///
/// The contract claims that parsing depends on the text alone: it succeeds
/// exactly where `backend_accepts` holds, and the id of the parsed hotkey
/// (`(modifier bits << 16) | key code` in the crate's source) is the one
/// `backend_hotkey_id` names for the text. For canonical texts this does
/// not depend on the platform. Which texts parse, and which modifiers and
/// key codes they give, are not stated.
#[verifier::external_body]
fn backend_hotkey_from_str(text: &str) -> (r: Result<
    (global_hotkey::hotkey::HotKey, u32),
    global_hotkey::hotkey::HotKeyParseError,
>)
    requires
        canonical_backend_text(text@),
    ensures
        r is Ok <==> backend_accepts(text@),
        r matches Ok((_, id)) ==> id == backend_hotkey_id(text@),
{
    let hotkey = text.parse::<global_hotkey::hotkey::HotKey>()?;
    Ok((hotkey, hotkey.id))
}

/// Why hotkey text could not become a backend hotkey.
#[derive(Debug)]
pub enum GlobalHotkeyError {
    /// The text is not a valid hotkey.
    Hotkey(HotkeyError),
    /// The backend refused the canonical text.
    Backend(global_hotkey::hotkey::HotKeyParseError),
}

/// A backend hotkey for `value`: its canonical form, spelled for the
/// backend, with the id that the backend reports in its events.
pub fn parse_global_hotkey(value: &str) -> (r: Result<
    (global_hotkey::hotkey::HotKey, u32),
    GlobalHotkeyError,
>)
    ensures
        match normalized_hotkey(value@) {
            Ok(k) => (r is Ok <==> backend_accepts(backend_hotkey_text(k)))
                && (r is Err ==> r matches Err(GlobalHotkeyError::Backend(_)))
                && (r matches Ok((_, id)) ==> id == backend_hotkey_id(backend_hotkey_text(k))),
            Err(e) => r matches Err(GlobalHotkeyError::Hotkey(err)) && err@ == e,
        },
{
    let normalized = match normalize_hotkey(value) {
        Ok(n) => n,
        Err(e) => return Err(GlobalHotkeyError::Hotkey(e)),
    };
    let text = global_hotkey_value(normalized.as_str());
    proof {
        crate::hotkeys::matcher::law_normalized_hotkey_is_canonical(value@);
        assert(text@ == backend_hotkey_text(normalized@));
    }
    match backend_hotkey_from_str(text.as_str()) {
        Ok(h) => Ok(h),
        Err(e) => Err(GlobalHotkeyError::Backend(e)),
    }
}

/// What the hotkey backend reports for a registered hotkey.
pub open spec fn backend_action(pressed: bool, event_id: u32, registered: Seq<u32>) -> Option<
    HotkeyAction,
> {
    if registered.contains(event_id) {
        if pressed {
            Some(HotkeyAction::TranscribePressed)
        } else {
            Some(HotkeyAction::Released)
        }
    } else {
        None
    }
}

/// The action for a backend hotkey event with `event_id`: a press or release
/// of a registered transcription hotkey; events of other hotkeys give none.
pub fn transcription_action(pressed: bool, event_id: u32, registered: &[u32]) -> (r: Option<
    HotkeyAction,
>)
    ensures
        r == backend_action(pressed, event_id, registered@),
{
    let mut found = false;
    let mut i: usize = 0;
    while i < registered.len()
        invariant
            i <= registered.len(),
            found == registered@.take(i as int).contains(event_id),
        decreases registered.len() - i,
    {
        let ghost before = registered@.take(i as int);
        let ghost after = registered@.take(i + 1);
        proof {
            assert(after =~= before.push(registered@[i as int]));
        }
        if registered[i] == event_id {
            found = true;
            proof {
                assert(after[i as int] == event_id);
            }
        } else {
            proof {
                if after.contains(event_id) {
                    let j = choose|j: int| 0 <= j < after.len() && after[j] == event_id;
                    assert(before[j] == event_id);
                }
                if before.contains(event_id) {
                    let j = choose|j: int| 0 <= j < before.len() && before[j] == event_id;
                    assert(after[j] == event_id);
                }
            }
        }
        i = i + 1;
    }
    proof {
        assert(registered@.take(registered.len() as int) =~= registered@);
    }
    if found {
        if pressed {
            Some(HotkeyAction::TranscribePressed)
        } else {
            Some(HotkeyAction::Released)
        }
    } else {
        None
    }
}

/// An event of the Copilot chord, as the keyboard hook reports it.
#[derive(Clone, Copy, Debug, PartialEq, Eq, Structural)]
pub enum CopilotKeyEvent {
    Pressed,
    Released,
}

/// The hotkey action for a Copilot chord event.
pub fn copilot_action(event: CopilotKeyEvent) -> (r: HotkeyAction)
    ensures
        event is Pressed ==> r == HotkeyAction::CopilotPressed,
        event is Released ==> r == HotkeyAction::CopilotReleased,
{
    match event {
        CopilotKeyEvent::Pressed => HotkeyAction::CopilotPressed,
        CopilotKeyEvent::Released => HotkeyAction::CopilotReleased,
    }
}

/// A key event seen by the low-level keyboard hook.
#[derive(Clone, Copy, Debug, PartialEq, Eq, Structural)]
pub struct HookKeyEvent {
    /// The key is F23.
    pub is_f23: bool,
    /// A key-down (or system key-down) message.
    pub is_down: bool,
    /// A key-up (or system key-up) message.
    pub is_up: bool,
    /// Shift is held.
    pub shift_down: bool,
    /// Either Windows key is held.
    pub win_down: bool,
}

/// The keyboard hook's state after an event, and the chord event it reports.
#[derive(Clone, Copy, Debug, PartialEq, Eq, Structural)]
pub struct CopilotHookStep {
    pub active: bool,
    pub event: Option<CopilotKeyEvent>,
}

/// The Copilot chord is pressed when F23 goes down with Shift and Win held
/// while it is not already pressed, and released when F23 goes up while it is
/// pressed. Other events leave the state alone and report nothing.
pub open spec fn copilot_step(active: bool, key: HookKeyEvent) -> CopilotHookStep {
    if key.is_f23 && key.is_down && key.shift_down && key.win_down && !active {
        CopilotHookStep { active: true, event: Some(CopilotKeyEvent::Pressed) }
    } else if key.is_f23 && !(key.is_down && key.shift_down && key.win_down && !active) && key.is_up
        && active {
        CopilotHookStep { active: false, event: Some(CopilotKeyEvent::Released) }
    } else {
        CopilotHookStep { active, event: None }
    }
}

/// One step of the Copilot keyboard hook.
pub fn copilot_hook_step(active: bool, key: HookKeyEvent) -> (r: CopilotHookStep)
    ensures
        r == copilot_step(active, key),
{
    if key.is_f23 && (key.is_down || key.is_up) {
        if key.is_down && key.shift_down && key.win_down && !active {
            return CopilotHookStep { active: true, event: Some(CopilotKeyEvent::Pressed) };
        } else if key.is_up && active {
            return CopilotHookStep { active: false, event: Some(CopilotKeyEvent::Released) };
        }
    }
    CopilotHookStep { active, event: None }
}

} // verus!
