//! The recording state machine: hotkey presses and releases, audio level
//! reports and background completions move it between idle, recording,
//! transcribing, inserting and error, and tell the runtime what to do.
use crate::api::transcription::AudioRequestKind;
use crate::audio::levels::{should_stop_on_silence, stops_on_silence};
use crate::hotkeys::service::HotkeyAction;
use crate::settings::{AppSettings, RecordingMode};
use crate::sounds::SoundKind;
use crate::tray::TrayState;
use crate::text::{chars_of, trim, trim_chars};
use vstd::prelude::*;

verus! {

/// Full-scale audio level: the peak amplitude of a 16-bit sample (`|i16::MIN|`).
pub const LEVEL_FULL_SCALE: u32 = 32768;

/// What the runtime is doing.
#[derive(Clone, Copy, Debug, PartialEq, Eq, Structural)]
pub enum OperationState {
    Idle,
    Recording(AudioRequestKind),
    Transcribing(AudioRequestKind),
    Inserting,
    Error,
}

/// What the runtime must do after a state-machine step.
#[derive(Clone, Copy, Debug, PartialEq, Eq, Structural)]
pub enum StateCommand {
    Nothing,
    StartRecording(AudioRequestKind),
    StopAndTranscribe(AudioRequestKind),
    CancelRecording,
}

/// The recording state machine and its recording policy.
///
/// Audio levels are peak amplitudes on the scale `0..=LEVEL_FULL_SCALE`; the
/// silence threshold is a percentage of full scale.
#[derive(Clone, Debug)]
pub struct VoiceInsertState {
    recording_mode: RecordingMode,
    silence_threshold_percent: u8,
    silence_timeout_ms: u64,
    max_recording_ms: u64,
    state: OperationState,
    elapsed_recording_ms: u64,
    silent_for_ms: u64,
}

/// The state machine as a mathematical value.
pub struct MachineState {
    pub recording_mode: RecordingMode,
    pub silence_threshold_percent: nat,
    pub silence_timeout_ms: nat,
    pub max_recording_ms: nat,
    pub state: OperationState,
    pub elapsed_recording_ms: nat,
    pub silent_for_ms: nat,
}

impl View for VoiceInsertState {
    type V = MachineState;

    closed spec fn view(&self) -> MachineState {
        MachineState {
            recording_mode: self.recording_mode,
            silence_threshold_percent: self.silence_threshold_percent as nat,
            silence_timeout_ms: self.silence_timeout_ms as nat,
            max_recording_ms: self.max_recording_ms as nat,
            state: self.state,
            elapsed_recording_ms: self.elapsed_recording_ms as nat,
            silent_for_ms: self.silent_for_ms as nat,
        }
    }
}

/// `a + b`, saturated at `u64::MAX`.
pub open spec fn sat_add(a: nat, b: nat) -> nat {
    if a + b > u64::MAX {
        u64::MAX as nat
    } else {
        a + b
    }
}

/// A level counts as silence when it is at or below the threshold:
/// `level / LEVEL_FULL_SCALE <= percent / 100`.
pub open spec fn is_silent(level: nat, threshold_percent: nat) -> bool {
    level * 100 <= threshold_percent * (LEVEL_FULL_SCALE as nat)
}

impl MachineState {
    pub open spec fn is_recording(self) -> bool {
        self.state is Recording
    }

    /// Starts a recording of `kind` with fresh counters.
    pub open spec fn start(self, kind: AudioRequestKind) -> MachineState {
        MachineState {
            state: OperationState::Recording(kind),
            elapsed_recording_ms: 0,
            silent_for_ms: 0,
            ..self
        }
    }

    /// Ends a recording and hands it to transcription.
    pub open spec fn stop(self) -> (MachineState, StateCommand) {
        match self.state {
            OperationState::Recording(kind) => (
                MachineState { state: OperationState::Transcribing(kind), ..self },
                StateCommand::StopAndTranscribe(kind),
            ),
            _ => (self, StateCommand::Nothing),
        }
    }

    /// A press of the transcription hotkey.
    pub open spec fn pressed(self, kind: AudioRequestKind) -> (MachineState, StateCommand) {
        match self.state {
            OperationState::Idle | OperationState::Error => (
                self.start(kind),
                StateCommand::StartRecording(kind),
            ),
            OperationState::Recording(_) => if self.recording_mode == RecordingMode::Hold {
                (self, StateCommand::Nothing)
            } else {
                self.stop()
            },
            _ => (self, StateCommand::Nothing),
        }
    }

    /// A release of the hotkey: ends a recording only in hold mode.
    pub open spec fn released(self) -> (MachineState, StateCommand) {
        if self.recording_mode == RecordingMode::Hold && self.is_recording() {
            self.stop()
        } else {
            (self, StateCommand::Nothing)
        }
    }

    /// Abandons a recording without transcribing it.
    pub open spec fn cancelled(self) -> (MachineState, StateCommand) {
        if self.is_recording() {
            (
                MachineState {
                    state: OperationState::Idle,
                    elapsed_recording_ms: 0,
                    silent_for_ms: 0,
                    ..self
                },
                StateCommand::CancelRecording,
            )
        } else {
            (self, StateCommand::Nothing)
        }
    }

    /// A level report covering `delta_ms` milliseconds of audio.
    pub open spec fn level_report(self, level: nat, delta_ms: nat) -> (MachineState, StateCommand) {
        if !self.is_recording() {
            (self, StateCommand::Nothing)
        } else {
            let timed = MachineState {
                elapsed_recording_ms: sat_add(self.elapsed_recording_ms, delta_ms),
                ..self
            };
            if timed.elapsed_recording_ms >= self.max_recording_ms {
                timed.stop()
            } else if !stops_on_silence(self.recording_mode) {
                (timed, StateCommand::Nothing)
            } else if is_silent(level, self.silence_threshold_percent) {
                let quiet = MachineState {
                    silent_for_ms: sat_add(self.silent_for_ms, delta_ms),
                    ..timed
                };
                if quiet.silent_for_ms >= self.silence_timeout_ms {
                    quiet.stop()
                } else {
                    (quiet, StateCommand::Nothing)
                }
            } else {
                (MachineState { silent_for_ms: 0, ..timed }, StateCommand::Nothing)
            }
        }
    }

    pub open spec fn with_state(self, state: OperationState) -> MachineState {
        MachineState { state, ..self }
    }
}

fn saturating_add(a: u64, b: u64) -> (r: u64)
    ensures
        r as nat == sat_add(a as nat, b as nat),
{
    if a > u64::MAX - b {
        u64::MAX
    } else {
        a + b
    }
}

impl VoiceInsertState {
    /// A fresh machine in the idle state. The threshold is capped at 100 percent.
    pub fn new(
        recording_mode: RecordingMode,
        silence_threshold_percent: u8,
        silence_timeout_ms: u64,
        max_recording_ms: u64,
    ) -> (s: Self)
        ensures
            s@ == (MachineState {
                recording_mode,
                silence_threshold_percent: if silence_threshold_percent > 100 {
                    100
                } else {
                    silence_threshold_percent as nat
                },
                silence_timeout_ms: silence_timeout_ms as nat,
                max_recording_ms: max_recording_ms as nat,
                state: OperationState::Idle,
                elapsed_recording_ms: 0,
                silent_for_ms: 0,
            }),
    {
        Self {
            recording_mode,
            silence_threshold_percent: if silence_threshold_percent > 100 {
                100
            } else {
                silence_threshold_percent
            },
            silence_timeout_ms,
            max_recording_ms,
            state: OperationState::Idle,
            elapsed_recording_ms: 0,
            silent_for_ms: 0,
        }
    }

    /// The current operation.
    pub fn state(&self) -> (s: OperationState)
        ensures
            s == self@.state,
    {
        self.state
    }

    /// The silence threshold, in percent of full scale.
    pub fn silence_threshold_percent(&self) -> (p: u8)
        ensures
            p as nat == self@.silence_threshold_percent,
    {
        self.silence_threshold_percent
    }

    /// Handles a press of the hotkey for `request_kind`.
    pub fn hotkey_pressed(&mut self, request_kind: AudioRequestKind) -> (c: StateCommand)
        ensures
            (final(self)@, c) == old(self)@.pressed(request_kind),
    {
        match self.state {
            OperationState::Idle | OperationState::Error => {
                self.start_recording(request_kind);
                StateCommand::StartRecording(request_kind)
            },
            OperationState::Recording(_) => {
                if self.recording_mode == RecordingMode::Hold {
                    StateCommand::Nothing
                } else {
                    self.stop_for_transcription()
                }
            },
            _ => StateCommand::Nothing,
        }
    }

    /// A fresh machine for `settings`: its mode, silence threshold, silence
    /// timeout and maximum recording time (in milliseconds, saturating).
    pub fn from_settings(settings: &AppSettings) -> (s: Self)
        ensures
            s@ == (MachineState {
                recording_mode: settings.recording_mode,
                silence_threshold_percent: if settings.silence_threshold_percent > 100 {
                    100
                } else {
                    settings.silence_threshold_percent as nat
                },
                silence_timeout_ms: settings.silence_timeout_milliseconds as nat,
                max_recording_ms: if settings.max_recording_seconds * 1000 > u64::MAX {
                    u64::MAX as nat
                } else {
                    (settings.max_recording_seconds * 1000) as nat
                },
                state: OperationState::Idle,
                elapsed_recording_ms: 0,
                silent_for_ms: 0,
            }),
    {
        let max_ms = if settings.max_recording_seconds > u64::MAX / 1000 {
            u64::MAX
        } else {
            settings.max_recording_seconds * 1000
        };
        VoiceInsertState::new(
            settings.recording_mode,
            settings.silence_threshold_percent,
            settings.silence_timeout_milliseconds,
            max_ms,
        )
    }

    /// Handles a hotkey action: the transcription hotkey and the Copilot
    /// chord both start and stop transcription recordings.
    pub fn handle_hotkey_action(&mut self, action: HotkeyAction) -> (c: StateCommand)
        ensures
            (final(self)@, c) == action_step(old(self)@, action),
    {
        match action {
            HotkeyAction::TranscribePressed | HotkeyAction::CopilotPressed => {
                self.hotkey_pressed(AudioRequestKind::Transcription)
            },
            HotkeyAction::Released | HotkeyAction::CopilotReleased => self.hotkey_released(),
        }
    }

    /// Handles a release of the hotkey.
    pub fn hotkey_released(&mut self) -> (c: StateCommand)
        ensures
            (final(self)@, c) == old(self)@.released(),
    {
        if self.recording_mode == RecordingMode::Hold && matches!(self.state, OperationState::Recording(_)) {
            return self.stop_for_transcription();
        }
        StateCommand::Nothing
    }

    /// Abandons the current recording, if any.
    pub fn cancel_recording(&mut self) -> (c: StateCommand)
        ensures
            (final(self)@, c) == old(self)@.cancelled(),
    {
        if matches!(self.state, OperationState::Recording(_)) {
            self.state = OperationState::Idle;
            self.elapsed_recording_ms = 0;
            self.silent_for_ms = 0;
            return StateCommand::CancelRecording;
        }
        StateCommand::Nothing
    }

    /// Handles an audio level report: `level` is a peak amplitude on the scale
    /// `0..=LEVEL_FULL_SCALE` measured over `delta_ms` milliseconds.
    pub fn level_changed(&mut self, level: u32, delta_ms: u64) -> (c: StateCommand)
        ensures
            (final(self)@, c) == old(self)@.level_report(level as nat, delta_ms as nat),
    {
        if !matches!(self.state, OperationState::Recording(_)) {
            return StateCommand::Nothing;
        }
        self.elapsed_recording_ms = saturating_add(self.elapsed_recording_ms, delta_ms);
        if self.elapsed_recording_ms >= self.max_recording_ms {
            return self.stop_for_transcription();
        }
        if !should_stop_on_silence(self.recording_mode) {
            return StateCommand::Nothing;
        }
        if (level as u64) * 100 <= (self.silence_threshold_percent as u64) * (LEVEL_FULL_SCALE as u64) {
            self.silent_for_ms = saturating_add(self.silent_for_ms, delta_ms);
            if self.silent_for_ms >= self.silence_timeout_ms {
                return self.stop_for_transcription();
            }
        } else {
            self.silent_for_ms = 0;
        }
        StateCommand::Nothing
    }

    /// Text insertion has started.
    pub fn mark_inserting(&mut self)
        ensures
            final(self)@ == old(self)@.with_state(OperationState::Inserting),
    {
        self.state = OperationState::Inserting;
    }

    /// The machine is ready for a new recording.
    pub fn mark_idle(&mut self)
        ensures
            final(self)@ == old(self)@.with_state(OperationState::Idle),
    {
        self.state = OperationState::Idle;
    }

    /// The last operation failed.
    pub fn mark_error(&mut self)
        ensures
            final(self)@ == old(self)@.with_state(OperationState::Error),
    {
        self.state = OperationState::Error;
    }

    fn start_recording(&mut self, request_kind: AudioRequestKind)
        ensures
            final(self)@ == old(self)@.start(request_kind),
    {
        self.state = OperationState::Recording(request_kind);
        self.elapsed_recording_ms = 0;
        self.silent_for_ms = 0;
    }

    fn stop_for_transcription(&mut self) -> (c: StateCommand)
        ensures
            (final(self)@, c) == old(self)@.stop(),
    {
        if let OperationState::Recording(kind) = self.state {
            self.state = OperationState::Transcribing(kind);
            return StateCommand::StopAndTranscribe(kind);
        }
        StateCommand::Nothing
    }
}

// ---------------------------------------------------------------------------
// Laws of the state machine
// ---------------------------------------------------------------------------

/// In toggle and hold modes silence never ends a recording: a level report
/// stops a recording there only once the maximum duration is reached, and the
/// reported level makes no difference at all.
pub proof fn law_silence_ignored_outside_silence_mode(
    m: MachineState,
    level_a: nat,
    level_b: nat,
    delta_ms: nat,
)
    requires
        m.recording_mode != RecordingMode::SilenceTimeout,
    ensures
        m.level_report(level_a, delta_ms) == m.level_report(level_b, delta_ms),
        m.level_report(level_a, delta_ms).1 is StopAndTranscribe ==> sat_add(
            m.elapsed_recording_ms,
            delta_ms,
        ) >= m.max_recording_ms,
{
}

/// In hold mode a recording ends when the hotkey is released, and pressing it
/// again meanwhile changes nothing; in the other modes a second press ends it
/// and a release changes nothing.
pub proof fn law_hotkey_ends_recording_per_mode(m: MachineState, kind: AudioRequestKind, other: AudioRequestKind)
    requires
        m.state == OperationState::Recording(kind),
    ensures
        m.recording_mode == RecordingMode::Hold ==> m.released() == (
            m.with_state(OperationState::Transcribing(kind)),
            StateCommand::StopAndTranscribe(kind),
        ) && m.pressed(other) == (m, StateCommand::Nothing),
        m.recording_mode != RecordingMode::Hold ==> m.pressed(other) == (
            m.with_state(OperationState::Transcribing(kind)),
            StateCommand::StopAndTranscribe(kind),
        ) && m.released() == (m, StateCommand::Nothing),
{
}

/// In silence-timeout mode, a quiet level report that brings the silence up
/// to the timeout ends the recording, and a level above the threshold resets
/// the silence count (while the maximum duration is not reached).
pub proof fn law_silence_timeout_mode(m: MachineState, kind: AudioRequestKind, level: nat, delta_ms: nat)
    requires
        m.recording_mode == RecordingMode::SilenceTimeout,
        m.state == OperationState::Recording(kind),
        sat_add(m.elapsed_recording_ms, delta_ms) < m.max_recording_ms,
    ensures
        is_silent(level, m.silence_threshold_percent) && sat_add(m.silent_for_ms, delta_ms)
            >= m.silence_timeout_ms ==> m.level_report(level, delta_ms).1 == StateCommand::StopAndTranscribe(kind),
        is_silent(level, m.silence_threshold_percent) && sat_add(m.silent_for_ms, delta_ms)
            < m.silence_timeout_ms ==> m.level_report(level, delta_ms).1 == StateCommand::Nothing
            && m.level_report(level, delta_ms).0.silent_for_ms == sat_add(m.silent_for_ms, delta_ms),
        !is_silent(level, m.silence_threshold_percent) ==> m.level_report(level, delta_ms).1
            == StateCommand::Nothing && m.level_report(level, delta_ms).0.silent_for_ms == 0,
{
}

/// Silence is measured against full scale: in silence-timeout mode, a level
/// report counts as silence exactly when the level, as a fraction of the
/// full scale 32768, is at most the threshold percentage (`level / 32768 <=
/// percent / 100`). A silent report that brings the silence up to the
/// timeout ends the recording; a louder one resets the silence count. With a
/// 4% threshold, for instance, a level of 1000 (about 3%) is silence.
pub proof fn law_silence_is_a_share_of_full_scale(m: MachineState, kind: AudioRequestKind, level: nat, delta_ms: nat)
    requires
        m.recording_mode == RecordingMode::SilenceTimeout,
        m.state == OperationState::Recording(kind),
        sat_add(m.elapsed_recording_ms, delta_ms) < m.max_recording_ms,
    ensures
        level * 100 <= m.silence_threshold_percent * 32768 && sat_add(m.silent_for_ms, delta_ms)
            >= m.silence_timeout_ms ==> m.level_report(level, delta_ms).1 == StateCommand::StopAndTranscribe(kind),
        level * 100 <= m.silence_threshold_percent * 32768 && sat_add(m.silent_for_ms, delta_ms)
            < m.silence_timeout_ms ==> m.level_report(level, delta_ms).1 == StateCommand::Nothing
            && m.level_report(level, delta_ms).0.silent_for_ms == sat_add(m.silent_for_ms, delta_ms),
        level * 100 > m.silence_threshold_percent * 32768 ==> m.level_report(level, delta_ms).1
            == StateCommand::Nothing && m.level_report(level, delta_ms).0.silent_for_ms == 0,
{
}

/// The machine after a sequence of level reports `(level, milliseconds)`.
pub open spec fn after_reports(m: MachineState, reports: Seq<(nat, nat)>) -> MachineState
    decreases reports.len(),
{
    if reports.len() == 0 {
        m
    } else {
        after_reports(m, reports.drop_last()).level_report(reports.last().0, reports.last().1).0
    }
}

/// The total time the reports cover, saturated at `u64::MAX`.
pub open spec fn reported_time(reports: Seq<(nat, nat)>) -> nat
    decreases reports.len(),
{
    if reports.len() == 0 {
        0
    } else {
        sat_add(reported_time(reports.drop_last()), reports.last().1)
    }
}

/// The time covered by the longest run of silent reports at the end of the
/// sequence, saturated at `u64::MAX` (0 when the last report is not silent).
pub open spec fn trailing_silence(reports: Seq<(nat, nat)>, threshold_percent: nat) -> nat
    decreases reports.len(),
{
    if reports.len() == 0 {
        0
    } else if is_silent(reports.last().0, threshold_percent) {
        sat_add(trailing_silence(reports.drop_last(), threshold_percent), reports.last().1)
    } else {
        0
    }
}

proof fn lemma_quiet_reports(m: MachineState, kind: AudioRequestKind, reports: Seq<(nat, nat)>)
    requires
        m.state == OperationState::Recording(kind),
        m.elapsed_recording_ms == 0,
        m.silent_for_ms == 0,
        forall|j: int|
            0 <= j < reports.len() ==> (#[trigger] after_reports(m, reports.take(j))).level_report(
                reports[j].0,
                reports[j].1,
            ).1 == StateCommand::Nothing,
    ensures
        after_reports(m, reports) == (MachineState {
            state: OperationState::Recording(kind),
            elapsed_recording_ms: reported_time(reports),
            silent_for_ms: if stops_on_silence(m.recording_mode) {
                trailing_silence(reports, m.silence_threshold_percent)
            } else {
                0
            },
            ..m
        }),
    decreases reports.len(),
{
    if reports.len() > 0 {
        let p = reports.drop_last();
        assert forall|j: int| 0 <= j < p.len() implies (#[trigger] after_reports(m, p.take(j))).level_report(
            p[j].0,
            p[j].1,
        ).1 == StateCommand::Nothing by {
            assert(p.take(j) =~= reports.take(j));
            assert(p[j] == reports[j]);
            assert(after_reports(m, reports.take(j)).level_report(reports[j].0, reports[j].1).1
                == StateCommand::Nothing);
        }
        lemma_quiet_reports(m, kind, p);
        let j = reports.len() - 1;
        assert(reports.take(j) =~= p);
        assert(after_reports(m, reports.take(j)).level_report(reports[j].0, reports[j].1).1
            == StateCommand::Nothing);
    }
}

/// Over a recording: once a press has started it, and as long as the level
/// reports so far (the first `reports.len()` ones) have all left it running,
/// the next report `(level, delta_ms)` ends it for transcription exactly when
/// the time of all reports reaches the maximum duration, or, in
/// silence-timeout mode, when that report is silent and the run of silent
/// reports at the end reaches the silence timeout; otherwise it keeps
/// recording.
pub proof fn law_recording_stops_on_time_or_trailing_silence(
    m: MachineState,
    kind: AudioRequestKind,
    reports: Seq<(nat, nat)>,
    level: nat,
    delta_ms: nat,
)
    requires
        m.state == OperationState::Idle || m.state == OperationState::Error,
        forall|j: int|
            0 <= j < reports.len() ==> (#[trigger] after_reports(m.pressed(kind).0, reports.take(j))).level_report(
                reports[j].0,
                reports[j].1,
            ).1 == StateCommand::Nothing,
    ensures
        ({
            let all = reports.push((level, delta_ms));
            let step = after_reports(m.pressed(kind).0, reports).level_report(level, delta_ms);
            let stops = reported_time(all) >= m.max_recording_ms || (m.recording_mode
                == RecordingMode::SilenceTimeout && is_silent(level, m.silence_threshold_percent)
                && trailing_silence(all, m.silence_threshold_percent) >= m.silence_timeout_ms);
            &&& m.pressed(kind).1 == StateCommand::StartRecording(kind)
            &&& stops ==> step.1 == StateCommand::StopAndTranscribe(kind) && step.0.state
                == OperationState::Transcribing(kind)
            &&& !stops ==> step.1 == StateCommand::Nothing && step.0.state == OperationState::Recording(
                kind,
            )
        }),
{
    let s = m.pressed(kind).0;
    lemma_quiet_reports(s, kind, reports);
    let all = reports.push((level, delta_ms));
    assert(all.drop_last() =~= reports);
}

/// Whatever the mode, a recording stops for transcription once the elapsed
/// time reaches the maximum recording duration.
pub proof fn law_max_duration_stops_every_mode(
    m: MachineState,
    kind: AudioRequestKind,
    level: nat,
    delta_ms: nat,
)
    requires
        m.state == OperationState::Recording(kind),
        sat_add(m.elapsed_recording_ms, delta_ms) >= m.max_recording_ms,
    ensures
        m.level_report(level, delta_ms).1 == StateCommand::StopAndTranscribe(kind),
        m.level_report(level, delta_ms).0.state == OperationState::Transcribing(kind),
{
}

/// From idle or after an error a hotkey press always starts a new recording of
/// the requested kind, with its timers reset.
pub proof fn law_press_starts_from_idle_or_error(m: MachineState, kind: AudioRequestKind)
    requires
        m.state == OperationState::Idle || m.state == OperationState::Error,
    ensures
        m.pressed(kind).1 == StateCommand::StartRecording(kind),
        m.pressed(kind).0.state == OperationState::Recording(kind),
        m.pressed(kind).0.elapsed_recording_ms == 0,
        m.pressed(kind).0.silent_for_ms == 0,
{
}

/// A step enters the transcribing state exactly when it tells the runtime to
/// stop and transcribe, and the transcription keeps the recording's kind.
pub proof fn law_transcribing_only_through_stop(
    m: MachineState,
    kind: AudioRequestKind,
    level: nat,
    delta_ms: nat,
)
    requires
        m.state == OperationState::Recording(kind),
    ensures
        ({
            let steps = seq![m.pressed(kind), m.released(), m.cancelled(), m.level_report(level, delta_ms)];
            forall|i: int|
                0 <= i < 4 ==> ((#[trigger] steps[i]).0.state == OperationState::Transcribing(kind)
                    <==> steps[i].1 == StateCommand::StopAndTranscribe(kind))
        }),
{
}

/// Cancelling a recording returns to idle with reset timers and never asks for
/// a transcription; outside a recording it changes nothing.
pub proof fn law_cancel_returns_to_idle(m: MachineState)
    ensures
        m.is_recording() ==> m.cancelled().0.state == OperationState::Idle
            && m.cancelled().1 == StateCommand::CancelRecording
            && m.cancelled().0.elapsed_recording_ms == 0,
        !m.is_recording() ==> m.cancelled() == (m, StateCommand::Nothing),
{
}

/// Only a recording is ever stopped or cancelled: outside the recording state,
/// releases, cancellations and level reports leave the machine unchanged.
pub proof fn law_only_recordings_react(m: MachineState, level: nat, delta_ms: nat)
    requires
        !m.is_recording(),
    ensures
        m.released() == (m, StateCommand::Nothing),
        m.cancelled() == (m, StateCommand::Nothing),
        m.level_report(level, delta_ms) == (m, StateCommand::Nothing),
{
}

// ---------------------------------------------------------------------------
// Log text
// ---------------------------------------------------------------------------

/// The first line of `s` (up to, not including, the first `\n`).
pub open spec fn first_line(s: Seq<char>) -> Seq<char>
    decreases s.len(),
{
    if s.len() == 0 {
        s
    } else if s[0] == '\n' {
        Seq::empty()
    } else {
        seq![s[0]] + first_line(s.drop_first())
    }
}

/// A message fit for the log: the first line, trimmed, at most 300 characters.
/// (A `\r` before the line break is white space and so trimmed away.)
pub open spec fn log_safe_text(s: Seq<char>) -> Seq<char> {
    let t = trim(first_line(s));
    if t.len() > 300 {
        t.take(300)
    } else {
        t
    }
}

proof fn lemma_first_line_at(s: Seq<char>, i: int)
    requires
        0 <= i <= s.len(),
        forall|k: int| 0 <= k < i ==> #[trigger] s[k] != '\n',
        i == s.len() || s[i] == '\n',
    ensures
        first_line(s) == s.take(i),
    decreases i,
{
    if i == 0 {
        assert(s.take(0) =~= Seq::<char>::empty());
    } else {
        let t = s.drop_first();
        assert forall|k: int| 0 <= k < i - 1 implies #[trigger] t[k] != '\n' by {
            assert(t[k] == s[k + 1]);
        }
        if i < s.len() {
            assert(t[i - 1] == s[i]);
        }
        lemma_first_line_at(t, i - 1);
        assert(seq![s[0]] + t.take(i - 1) =~= s.take(i));
    }
}

/// Reduces an error message to text that is safe to log: its first line,
/// trimmed, cut to 300 characters.
pub fn sanitize_log_text(message: &str) -> (out: String)
    ensures
        out@ == log_safe_text(message@),
{
    let cs = chars_of(message);
    let mut i: usize = 0;
    while i < cs.len() && cs[i] != '\n'
        invariant
            0 <= i <= cs.len(),
            forall|k: int| 0 <= k < i ==> #[trigger] cs@[k] != '\n',
        decreases cs.len() - i,
    {
        i = i + 1;
    }
    proof {
        lemma_first_line_at(cs@, i as int);
    }
    let line = crate::text::sub_chars(cs.as_slice(), 0, i);
    proof {
        assert(line@ =~= first_line(message@));
    }
    let t = trim_chars(line.as_slice());
    let n: usize = if t.len() > 300 {
        300
    } else {
        t.len()
    };
    let cut = crate::text::sub_chars(t.as_slice(), 0, n);
    proof {
        assert(cut@ =~= log_safe_text(message@));
    }
    crate::text::string_of(cut.as_slice())
}


/// The machine step for a hotkey action.
pub open spec fn action_step(m: MachineState, action: HotkeyAction) -> (MachineState, StateCommand) {
    match action {
        HotkeyAction::TranscribePressed => m.pressed(AudioRequestKind::Transcription),
        HotkeyAction::CopilotPressed => m.pressed(AudioRequestKind::Transcription),
        HotkeyAction::Released => m.released(),
        HotkeyAction::CopilotReleased => m.released(),
    }
}

/// What the recording overlay does after a command.
#[derive(Clone, Copy, Debug, PartialEq, Eq, Structural)]
pub enum OverlayChange {
    Keep,
    ShowRecording,
    ShowTranscribing,
    Hide,
}

/// The visible effects of a state command, besides starting or stopping the recorder.
#[derive(Clone, Copy, Debug, PartialEq, Eq, Structural)]
pub struct CommandEffects {
    pub tray: Option<TrayState>,
    pub overlay: OverlayChange,
    pub sound: Option<SoundKind>,
}

/// Starting a recording shows the recording overlay and tray state with the
/// start sound; stopping for transcription shows transcribing with the stop
/// sound; cancelling returns the tray to idle, hides the overlay and plays
/// the stop sound.
pub open spec fn effects_of(command: StateCommand) -> CommandEffects {
    match command {
        StateCommand::Nothing => CommandEffects {
            tray: None,
            overlay: OverlayChange::Keep,
            sound: None,
        },
        StateCommand::StartRecording(_) => CommandEffects {
            tray: Some(TrayState::Recording),
            overlay: OverlayChange::ShowRecording,
            sound: Some(SoundKind::Start),
        },
        StateCommand::StopAndTranscribe(_) => CommandEffects {
            tray: Some(TrayState::Transcribing),
            overlay: OverlayChange::ShowTranscribing,
            sound: Some(SoundKind::Stop),
        },
        StateCommand::CancelRecording => CommandEffects {
            tray: Some(TrayState::Idle),
            overlay: OverlayChange::Hide,
            sound: Some(SoundKind::Stop),
        },
    }
}

/// The visible effects of a state command.
pub fn command_effects(command: StateCommand) -> (e: CommandEffects)
    ensures
        e == effects_of(command),
{
    match command {
        StateCommand::Nothing => CommandEffects {
            tray: None,
            overlay: OverlayChange::Keep,
            sound: None,
        },
        StateCommand::StartRecording(_) => CommandEffects {
            tray: Some(TrayState::Recording),
            overlay: OverlayChange::ShowRecording,
            sound: Some(SoundKind::Start),
        },
        StateCommand::StopAndTranscribe(_) => CommandEffects {
            tray: Some(TrayState::Transcribing),
            overlay: OverlayChange::ShowTranscribing,
            sound: Some(SoundKind::Stop),
        },
        StateCommand::CancelRecording => CommandEffects {
            tray: Some(TrayState::Idle),
            overlay: OverlayChange::Hide,
            sound: Some(SoundKind::Stop),
        },
    }
}

/// The visible effects of a failure: the error tray state, no overlay and
/// the error sound.
pub fn failure_effects() -> (e: CommandEffects)
    ensures
        e == (CommandEffects {
            tray: Some(TrayState::Error),
            overlay: OverlayChange::Hide,
            sound: Some(SoundKind::Error),
        }),
{
    CommandEffects { tray: Some(TrayState::Error), overlay: OverlayChange::Hide, sound: Some(SoundKind::Error) }
}

} // verus!
