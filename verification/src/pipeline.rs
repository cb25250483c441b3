//! The dictation pipeline's decisions: record -> transcribe -> dictionary ->
//! format -> LLM cleanup -> inject -> history.
//!
//! The caller owns the microphone, the speech model, the LLM connection and
//! the focused app. It reports what happened to a `PipelineState`, which
//! decides what to do next and keeps the pipeline consistent: never
//! recording while a previous recording is being processed, and idle
//! exactly when neither is happening.

use crate::cleanup::CleanupOutcome;
use crate::dictionary::{apply, apply_spec, DictionaryEntry};
use crate::format::{post_process, post_process_spec};
use crate::settings::{FormatSettings, RecordingMode};
use crate::state::{DictationPhase, RecordingPurpose};
use crate::text::{chars_of, concat2};
use crate::unicode::{alphanumeric, is_alphanumeric};
use vstd::prelude::*;

verus! {

/// A phase in which a finished recording is being processed.
pub open spec fn is_processing_phase(p: DictationPhase) -> bool {
    p == DictationPhase::Transcribing || p == DictationPhase::Cleaning || p
        == DictationPhase::Injecting
}

/// The pipeline's bookkeeping: the phase shown to the user, whether a
/// recording is being processed (`busy`), whether the microphone is open,
/// and what the next finished recording is for.
pub struct PipelineState {
    phase: DictationPhase,
    busy: bool,
    recording: bool,
    purpose: RecordingPurpose,
}

/// What to do after a request to start recording.
#[derive(Debug, Clone, Copy, PartialEq, Eq, Structural)]
pub enum StartAction {
    /// Already recording or still processing: nothing happens.
    Ignore,
    /// Open the microphone, then report `microphone_opened` or `microphone_failed`.
    OpenMicrophone,
}

/// What to do after a request to stop recording.
#[derive(Debug, Clone, PartialEq)]
pub enum StopAction {
    /// Not recording: nothing happens.
    Ignore,
    /// A previous recording is still being processed: drop the new audio.
    Discard,
    /// Stop the microphone and process the audio for this purpose.
    Process(RecordingPurpose),
}

/// What to do after a toggle (tray item, toggle hotkey, toggle mode).
#[derive(Debug, Clone, PartialEq)]
pub enum ToggleAction {
    Stop(StopAction),
    Start(StartAction),
}

/// What to do after a request to cancel.
#[derive(Debug, Clone, Copy, PartialEq, Eq, Structural)]
pub enum CancelAction {
    /// No recording to cancel.
    Nothing,
    /// Stop the microphone and throw the audio away.
    StopMicrophone,
}

/// What to do after the Command Mode hotkey is pressed.
#[derive(Debug, Clone, PartialEq)]
pub enum CommandAction {
    /// Already recording or still processing: nothing happens.
    Ignore,
    /// Command Mode is unavailable; tell the user why.
    Refuse(String),
    /// Copy the current selection, then report `selection_copied`.
    CopySelection,
}

/// What to do once the selection has been copied.
#[derive(Debug, Clone, PartialEq)]
pub enum SelectionAction {
    /// Nothing was selected; tell the user (the state is unchanged).
    Refuse(String),
    /// Copying failed; the pipeline was reset; report the error.
    Fail(String),
    /// The selection is remembered; proceed as for a start request.
    Start(StartAction),
}

pub open spec fn command_needs_cleanup_message() -> Seq<char> {
    "Command Mode needs AI cleanup enabled (Settings \u{2192} AI Cleanup)"@
}

pub open spec fn command_needs_selection_message() -> Seq<char> {
    "Command Mode: select some text first, then hold the hotkey and speak"@
}

impl PipelineState {
    /// Consistency: the microphone is only open while nothing is being
    /// processed and the phase says `Recording`; processing shows one of the
    /// processing phases; otherwise the pipeline is idle.
    pub closed spec fn wf(self) -> bool {
        &&& self.recording ==> !self.busy && self.phase == DictationPhase::Recording
        &&& self.busy ==> !self.recording && is_processing_phase(self.phase)
        &&& !self.busy && !self.recording ==> self.phase == DictationPhase::Idle
    }

    pub closed spec fn phase_spec(self) -> DictationPhase {
        self.phase
    }

    pub closed spec fn busy_spec(self) -> bool {
        self.busy
    }

    pub closed spec fn recording_spec(self) -> bool {
        self.recording
    }

    pub closed spec fn purpose_spec(self) -> RecordingPurpose {
        self.purpose
    }

    /// An idle pipeline.
    pub fn new() -> (s: Self)
        ensures
            s.wf(),
            s.phase_spec() == DictationPhase::Idle,
            !s.busy_spec(),
            !s.recording_spec(),
            s.purpose_spec() == RecordingPurpose::Dictate,
    {
        PipelineState {
            phase: DictationPhase::Idle,
            busy: false,
            recording: false,
            purpose: RecordingPurpose::Dictate,
        }
    }

    pub fn phase(&self) -> (p: DictationPhase)
        ensures
            p == self.phase_spec(),
    {
        self.phase
    }

    pub fn is_busy(&self) -> (b: bool)
        ensures
            b == self.busy_spec(),
    {
        self.busy
    }

    pub fn is_recording(&self) -> (b: bool)
        ensures
            b == self.recording_spec(),
    {
        self.recording
    }

    /// Begin recording (hotkey press or UI button). Ignored while already
    /// recording or processing. The state does not change yet.
    pub fn request_start(&self) -> (a: StartAction)
        ensures
            a == (if self.busy_spec() || self.recording_spec() {
                StartAction::Ignore
            } else {
                StartAction::OpenMicrophone
            }),
    {
        if self.busy || self.recording {
            StartAction::Ignore
        } else {
            StartAction::OpenMicrophone
        }
    }

    /// The microphone opened after `OpenMicrophone`: now recording.
    pub fn microphone_opened(&mut self)
        requires
            old(self).wf(),
            !old(self).busy_spec(),
            !old(self).recording_spec(),
        ensures
            final(self).wf(),
            final(self).recording_spec(),
            !final(self).busy_spec(),
            final(self).phase_spec() == DictationPhase::Recording,
            final(self).purpose_spec() == old(self).purpose_spec(),
    {
        let purpose = self.take_purpose_for_update();
        *self = PipelineState { phase: DictationPhase::Recording, busy: false, recording: true, purpose };
    }

    /// Something went wrong (microphone, selection, transcription): the
    /// pipeline returns to idle and the next recording is plain dictation.
    /// Any open microphone is forgotten.
    pub fn fail(&mut self)
        ensures
            final(self).wf(),
            final(self).phase_spec() == DictationPhase::Idle,
            !final(self).busy_spec(),
            !final(self).recording_spec(),
            final(self).purpose_spec() == RecordingPurpose::Dictate,
    {
        *self = PipelineState {
            phase: DictationPhase::Idle,
            busy: false,
            recording: false,
            purpose: RecordingPurpose::Dictate,
        };
    }

    /// The microphone could not be opened.
    pub fn microphone_failed(&mut self)
        ensures
            final(self).wf(),
            final(self).phase_spec() == DictationPhase::Idle,
            !final(self).busy_spec(),
            !final(self).recording_spec(),
            final(self).purpose_spec() == RecordingPurpose::Dictate,
    {
        self.fail();
    }

    fn take_purpose_for_update(&mut self) -> (p: RecordingPurpose)
        ensures
            p == old(self).purpose_spec(),
            final(self).phase_spec() == old(self).phase_spec(),
            final(self).busy_spec() == old(self).busy_spec(),
            final(self).recording_spec() == old(self).recording_spec(),
            final(self).purpose_spec() == RecordingPurpose::Dictate,
    {
        let mut p = RecordingPurpose::Dictate;
        std::mem::swap(&mut p, &mut self.purpose);
        p
    }

    /// Stop recording and hand the audio to processing (hotkey release,
    /// toggle press, silence auto-stop, or UI button). Not recording:
    /// ignored. The purpose is handed over and reset to dictation.
    pub fn request_stop(&mut self) -> (a: StopAction)
        requires
            old(self).wf(),
        ensures
            final(self).wf(),
            !old(self).recording_spec() ==> a == StopAction::Ignore && *final(self) == *old(self),
            old(self).recording_spec() ==> {
                &&& a == StopAction::Process(old(self).purpose_spec())
                &&& final(self).busy_spec()
                &&& !final(self).recording_spec()
                &&& final(self).phase_spec() == DictationPhase::Transcribing
                &&& final(self).purpose_spec() == RecordingPurpose::Dictate
            },
    {
        if !self.recording {
            return StopAction::Ignore;
        }
        if self.busy {
            // A recording is never open while busy; kept as the guard it is.
            return StopAction::Discard;
        }
        let purpose = self.take_purpose_for_update();
        *self = PipelineState {
            phase: DictationPhase::Transcribing,
            busy: true,
            recording: false,
            purpose: RecordingPurpose::Dictate,
        };
        StopAction::Process(purpose)
    }

    /// Processing moved on to a later stage (cleaning, injecting).
    pub fn advance(&mut self, phase: DictationPhase)
        requires
            old(self).wf(),
            old(self).busy_spec(),
            is_processing_phase(phase),
        ensures
            final(self).wf(),
            final(self).phase_spec() == phase,
            final(self).busy_spec(),
            !final(self).recording_spec(),
            final(self).purpose_spec() == old(self).purpose_spec(),
    {
        let purpose = self.take_purpose_for_update();
        *self = PipelineState { phase, busy: true, recording: false, purpose };
    }

    /// Processing ended (text inserted, accidental tap dropped, no speech,
    /// Command Mode done or failed): back to idle.
    pub fn finish(&mut self)
        requires
            old(self).wf(),
        ensures
            final(self).wf(),
            final(self).phase_spec() == DictationPhase::Idle,
            !final(self).busy_spec(),
            !final(self).recording_spec(),
            final(self).purpose_spec() == old(self).purpose_spec(),
    {
        let purpose = self.take_purpose_for_update();
        *self = PipelineState { phase: DictationPhase::Idle, busy: false, recording: false, purpose };
    }

    /// Discard the in-flight recording without transcribing (Esc / cancel).
    /// The purpose is reset either way; the phase only changes when a
    /// recording was open.
    pub fn cancel(&mut self) -> (a: CancelAction)
        requires
            old(self).wf(),
        ensures
            final(self).wf(),
            old(self).recording_spec() ==> a == CancelAction::StopMicrophone && final(self).phase_spec() == DictationPhase::Idle && !final(self).recording_spec() && !final(self).busy_spec(),
            !old(self).recording_spec() ==> a == CancelAction::Nothing && final(self).phase_spec()
                == old(self).phase_spec() && final(self).busy_spec() == old(self).busy_spec()
                && !final(self).recording_spec(),
            final(self).purpose_spec() == RecordingPurpose::Dictate,
    {
        let _ = self.take_purpose_for_update();
        if self.recording {
            *self = PipelineState {
                phase: DictationPhase::Idle,
                busy: false,
                recording: false,
                purpose: RecordingPurpose::Dictate,
            };
            CancelAction::StopMicrophone
        } else {
            CancelAction::Nothing
        }
    }

    /// Toggle used by the tray, the toggle hotkey, and toggle recording
    /// mode: stop when recording, start otherwise.
    pub fn request_toggle(&mut self) -> (a: ToggleAction)
        requires
            old(self).wf(),
        ensures
            final(self).wf(),
            old(self).recording_spec() ==> a == ToggleAction::Stop(
                StopAction::Process(old(self).purpose_spec()),
            ) && final(self).busy_spec() && !final(self).recording_spec() && final(self).phase_spec() == DictationPhase::Transcribing
                && final(self).purpose_spec() == RecordingPurpose::Dictate,
            !old(self).recording_spec() ==> *final(self) == *old(self) && a == ToggleAction::Start(
                if old(self).busy_spec() {
                    StartAction::Ignore
                } else {
                    StartAction::OpenMicrophone
                },
            ),
    {
        if self.recording {
            ToggleAction::Stop(self.request_stop())
        } else {
            ToggleAction::Start(self.request_start())
        }
    }

    /// Command Mode hotkey pressed: ignored while recording or processing;
    /// refused when the LLM cleanup is disabled; otherwise copy the selection.
    pub fn request_command(&self, cleanup_enabled: bool) -> (a: CommandAction)
        ensures
            self.busy_spec() || self.recording_spec() ==> a == CommandAction::Ignore,
            !self.busy_spec() && !self.recording_spec() && !cleanup_enabled ==> (a matches CommandAction::Refuse(
                m,
            ) && m@ == command_needs_cleanup_message()),
            !self.busy_spec() && !self.recording_spec() && cleanup_enabled ==> a
                == CommandAction::CopySelection,
    {
        if self.busy || self.recording {
            CommandAction::Ignore
        } else if !cleanup_enabled {
            CommandAction::Refuse(
                "Command Mode needs AI cleanup enabled (Settings \u{2192} AI Cleanup)".to_owned(),
            )
        } else {
            CommandAction::CopySelection
        }
    }

    /// The selection was copied (`Ok(None)`: nothing selected). A selection
    /// becomes the purpose of the next recording, which then starts as
    /// `request_start` decides.
    pub fn selection_copied(&mut self, copied: Result<Option<String>, String>) -> (a:
        SelectionAction)
        requires
            old(self).wf(),
        ensures
            final(self).wf(),
            match copied {
                Ok(Some(sel)) => {
                    &&& final(self).purpose_spec() == RecordingPurpose::Command { selection: sel }
                    &&& final(self).phase_spec() == old(self).phase_spec()
                    &&& final(self).busy_spec() == old(self).busy_spec()
                    &&& final(self).recording_spec() == old(self).recording_spec()
                    &&& a == SelectionAction::Start(
                        if old(self).busy_spec() || old(self).recording_spec() {
                            StartAction::Ignore
                        } else {
                            StartAction::OpenMicrophone
                        },
                    )
                },
                Ok(None) => *final(self) == *old(self) && (a matches SelectionAction::Refuse(m)
                    && m@ == command_needs_selection_message()),
                Err(e) => {
                    &&& a matches SelectionAction::Fail(m) && m@ == "could not read selection: "@
                        + e@
                    &&& final(self).phase_spec() == DictationPhase::Idle
                    &&& !final(self).busy_spec() && !final(self).recording_spec()
                    &&& final(self).purpose_spec() == RecordingPurpose::Dictate
                },
            },
    {
        match copied {
            Ok(Some(selection)) => {
                let _ = self.take_purpose_for_update();
                let phase = self.phase;
                let busy = self.busy;
                let recording = self.recording;
                *self = PipelineState {
                    phase,
                    busy,
                    recording,
                    purpose: RecordingPurpose::Command { selection },
                };
                SelectionAction::Start(self.request_start())
            },
            Ok(None) => SelectionAction::Refuse(
                "Command Mode: select some text first, then hold the hotkey and speak".to_owned(),
            ),
            Err(e) => {
                self.fail();
                SelectionAction::Fail(concat2("could not read selection: ", e.as_str()))
            },
        }
    }
}

/// Law: the pipeline never records while it processes, and it is idle
/// exactly when it does neither.
pub proof fn lemma_pipeline_consistent(s: PipelineState)
    requires
        s.wf(),
    ensures
        !(s.busy_spec() && s.recording_spec()),
        s.recording_spec() ==> s.phase_spec() == DictationPhase::Recording,
        s.busy_spec() ==> is_processing_phase(s.phase_spec()),
        (s.phase_spec() == DictationPhase::Idle) <==> (!s.busy_spec() && !s.recording_spec()),
{
}

// ---------------------------------------------------------------------------
// Stage decisions
// ---------------------------------------------------------------------------

/// The tray tooltip for a phase.
pub fn phase_tooltip(phase: DictationPhase) -> (t: &'static str)
    ensures
        t@ == match phase {
            DictationPhase::Idle => "OpenSourceWisper \u{2014} local dictation"@,
            DictationPhase::Recording => "OpenSourceWisper \u{2014} listening\u{2026}"@,
            DictationPhase::Transcribing => "OpenSourceWisper \u{2014} transcribing\u{2026}"@,
            DictationPhase::Cleaning => "OpenSourceWisper \u{2014} polishing\u{2026}"@,
            DictationPhase::Injecting => "OpenSourceWisper \u{2014} inserting\u{2026}"@,
        },
{
    match phase {
        DictationPhase::Idle => "OpenSourceWisper \u{2014} local dictation",
        DictationPhase::Recording => "OpenSourceWisper \u{2014} listening\u{2026}",
        DictationPhase::Transcribing => "OpenSourceWisper \u{2014} transcribing\u{2026}",
        DictationPhase::Cleaning => "OpenSourceWisper \u{2014} polishing\u{2026}",
        DictationPhase::Injecting => "OpenSourceWisper \u{2014} inserting\u{2026}",
    }
}

/// Whether the recording watchdog stops the recording now: always once the
/// maximum duration (if any) is reached; in toggle mode also after the
/// configured silence, but never in the first 1.5 s.
pub open spec fn should_autostop_spec(
    mode: RecordingMode,
    autostop_ms: u64,
    max_secs: u64,
    elapsed_ms: u64,
    silent_ms: u64,
) -> bool {
    let over_max = max_secs > 0 && elapsed_ms / 1000 >= max_secs;
    let auto_silence = mode == RecordingMode::Toggle && autostop_ms > 0 && elapsed_ms > 1500
        && silent_ms >= autostop_ms;
    over_max || auto_silence
}

pub fn should_autostop(
    mode: RecordingMode,
    autostop_ms: u64,
    max_secs: u64,
    elapsed_ms: u64,
    silent_ms: u64,
) -> (b: bool)
    ensures
        b == should_autostop_spec(mode, autostop_ms, max_secs, elapsed_ms, silent_ms),
{
    let over_max = max_secs > 0 && elapsed_ms / 1000 >= max_secs;
    let auto_silence = mode == RecordingMode::Toggle && autostop_ms > 0 && elapsed_ms > 1500
        && silent_ms >= autostop_ms;
    over_max || auto_silence
}

/// Fewer than 1600 samples (100 ms at 16 kHz): an accidental tap, dropped quietly.
pub fn is_accidental_tap(n_samples: usize) -> (b: bool)
    ensures
        b == (n_samples < 1600),
{
    n_samples < 1600
}

/// A transcript counts as speech when it has an alphanumeric character.
pub open spec fn has_speech_spec(raw: Seq<char>) -> bool {
    exists|i: int| 0 <= i < raw.len() && #[trigger] alphanumeric(raw[i])
}

pub fn has_speech(raw: &str) -> (b: bool)
    ensures
        b == has_speech_spec(raw@),
{
    let v = chars_of(raw);
    let mut i: usize = 0;
    while i < v.len()
        invariant
            i <= v.len(),
            v@ == raw@,
            forall|k: int| 0 <= k < i ==> !#[trigger] alphanumeric(v@[k]),
        decreases v.len() - i,
    {
        if is_alphanumeric(v[i]) {
            return true;
        }
        i += 1;
    }
    false
}

/// The message when a recording held no speech.
pub fn no_speech_message() -> (m: &'static str)
    ensures
        m@ == "no speech detected"@,
{
    "no speech detected"
}

/// The text that goes to the LLM: the transcript with the dictionary
/// applied, then the deterministic formatting.
pub fn prepare_transcript(entries: &[DictionaryEntry], raw: &str, fmt: &FormatSettings) -> (res:
    String)
    ensures
        res@ == post_process_spec(apply_spec(entries@, raw@), *fmt),
{
    let with_dict = apply(entries, raw);
    post_process(with_dict.as_str(), fmt)
}

/// The result of one dictation, as reported to the UI.
#[derive(Debug, Clone, PartialEq)]
pub struct DictationResult {
    pub raw: String,
    pub final_text: String,
    pub app: String,
    pub duration_ms: u64,
    pub cleaned: bool,
    /// Why the LLM stage was skipped, if it was.
    pub skip_reason: String,
}

/// The final text of a dictation: the cleaned text with the dictionary
/// applied once more (the LLM may reintroduce misspellings), or the
/// formatted transcript when cleanup was skipped, with the reason.
pub fn conclude_dictation(
    entries: &[DictionaryEntry],
    raw: String,
    formatted: String,
    outcome: CleanupOutcome,
    app: String,
    duration_ms: u64,
) -> (res: DictationResult)
    ensures
        res.raw == raw,
        res.app == app,
        res.duration_ms == duration_ms,
        match outcome {
            CleanupOutcome::Cleaned(t) => res.final_text@ == apply_spec(entries@, t@) && res.cleaned
                && res.skip_reason@ == Seq::<char>::empty(),
            CleanupOutcome::Skipped(r) => res.final_text == formatted && !res.cleaned
                && res.skip_reason == r,
        },
{
    match outcome {
        CleanupOutcome::Cleaned(t) => DictationResult {
            raw,
            final_text: apply(entries, t.as_str()),
            app,
            duration_ms,
            cleaned: true,
            skip_reason: String::new(),
        },
        CleanupOutcome::Skipped(reason) => DictationResult {
            raw,
            final_text: formatted,
            app,
            duration_ms,
            cleaned: false,
            skip_reason: reason,
        },
    }
}

/// The result of a Command Mode run: the instruction is marked as such and
/// the edited text is reported as cleaned.
pub fn command_result(instruction: &str, edited: String, app: String, duration_ms: u64) -> (res:
    DictationResult)
    ensures
        res.raw@ == "[command] "@ + instruction@,
        res.final_text == edited,
        res.app == app,
        res.duration_ms == duration_ms,
        res.cleaned,
        res.skip_reason@ == Seq::<char>::empty(),
{
    DictationResult {
        raw: concat2("[command] ", instruction),
        final_text: edited,
        app,
        duration_ms,
        cleaned: true,
        skip_reason: String::new(),
    }
}

} // verus!
