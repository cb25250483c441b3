use wisper_core::cleanup::CleanupOutcome;
use wisper_core::dictionary::DictionaryEntry;
use wisper_core::pipeline::{
    command_result, conclude_dictation, has_speech, is_accidental_tap, phase_tooltip,
    prepare_transcript, should_autostop, CancelAction, CommandAction, PipelineState,
    SelectionAction, StartAction, StopAction, ToggleAction,
};
use wisper_core::settings::{FormatSettings, RecordingMode};
use wisper_core::state::{DictationPhase, RecordingPurpose};

#[test]
fn a_dictation_runs_through_every_phase() {
    let mut s = PipelineState::new();
    assert_eq!(s.phase(), DictationPhase::Idle);
    assert_eq!(s.request_start(), StartAction::OpenMicrophone);
    s.microphone_opened();
    assert_eq!(s.phase(), DictationPhase::Recording);
    assert!(s.is_recording() && !s.is_busy());
    assert_eq!(s.request_start(), StartAction::Ignore);
    assert_eq!(s.request_stop(), StopAction::Process(RecordingPurpose::Dictate));
    assert_eq!(s.phase(), DictationPhase::Transcribing);
    assert!(s.is_busy() && !s.is_recording());
    assert_eq!(s.request_start(), StartAction::Ignore);
    assert_eq!(s.request_stop(), StopAction::Ignore);
    s.advance(DictationPhase::Cleaning);
    s.advance(DictationPhase::Injecting);
    assert_eq!(s.phase(), DictationPhase::Injecting);
    s.finish();
    assert_eq!(s.phase(), DictationPhase::Idle);
    assert!(!s.is_busy());
}

#[test]
fn microphone_failure_and_cancel_return_to_idle() {
    let mut s = PipelineState::new();
    s.microphone_failed();
    assert_eq!(s.phase(), DictationPhase::Idle);
    assert_eq!(s.cancel(), CancelAction::Nothing);
    s.microphone_opened();
    assert_eq!(s.cancel(), CancelAction::StopMicrophone);
    assert_eq!(s.phase(), DictationPhase::Idle);
    assert!(!s.is_recording());
}

#[test]
fn toggle_starts_then_stops() {
    let mut s = PipelineState::new();
    assert_eq!(s.request_toggle(), ToggleAction::Start(StartAction::OpenMicrophone));
    s.microphone_opened();
    assert_eq!(
        s.request_toggle(),
        ToggleAction::Stop(StopAction::Process(RecordingPurpose::Dictate))
    );
    assert_eq!(s.request_toggle(), ToggleAction::Start(StartAction::Ignore));
}

#[test]
fn command_mode_flow() {
    let mut s = PipelineState::new();
    assert_eq!(
        s.request_command(false),
        CommandAction::Refuse(
            "Command Mode needs AI cleanup enabled (Settings \u{2192} AI Cleanup)".into()
        )
    );
    assert_eq!(s.request_command(true), CommandAction::CopySelection);
    assert_eq!(
        s.selection_copied(Ok(None)),
        SelectionAction::Refuse(
            "Command Mode: select some text first, then hold the hotkey and speak".into()
        )
    );
    assert_eq!(
        s.selection_copied(Err("no clipboard".into())),
        SelectionAction::Fail("could not read selection: no clipboard".into())
    );
    assert_eq!(
        s.selection_copied(Ok(Some("hello".into()))),
        SelectionAction::Start(StartAction::OpenMicrophone)
    );
    s.microphone_opened();
    assert_eq!(s.request_command(true), CommandAction::Ignore);
    assert_eq!(
        s.request_stop(),
        StopAction::Process(RecordingPurpose::Command { selection: "hello".into() })
    );
    s.finish();
    s.microphone_opened();
    assert_eq!(s.request_stop(), StopAction::Process(RecordingPurpose::Dictate));
}

#[test]
fn watchdog_rules() {
    // Max duration applies in every mode.
    assert!(should_autostop(RecordingMode::PushToTalk, 3000, 300, 300_000, 0));
    assert!(!should_autostop(RecordingMode::PushToTalk, 3000, 300, 299_999, 100_000));
    assert!(!should_autostop(RecordingMode::PushToTalk, 3000, 0, 10_000_000, 0));
    // Silence only in toggle mode, after 1.5 s.
    assert!(should_autostop(RecordingMode::Toggle, 3000, 300, 1501, 3000));
    assert!(!should_autostop(RecordingMode::Toggle, 3000, 300, 1500, 3000));
    assert!(!should_autostop(RecordingMode::Toggle, 0, 300, 5000, 5000));
    assert!(!should_autostop(RecordingMode::Toggle, 3000, 300, 5000, 2999));
}

#[test]
fn speech_and_taps() {
    assert!(is_accidental_tap(1599));
    assert!(!is_accidental_tap(1600));
    assert!(!has_speech(""));
    assert!(!has_speech(" ... ?!"));
    assert!(has_speech("... ok"));
    assert!(has_speech("\u{00e9}"));
}

#[test]
fn tooltips() {
    assert_eq!(phase_tooltip(DictationPhase::Idle), "OpenSourceWisper \u{2014} local dictation");
    assert_eq!(
        phase_tooltip(DictationPhase::Cleaning),
        "OpenSourceWisper \u{2014} polishing\u{2026}"
    );
}

#[test]
fn stages_of_a_dictation() {
    let dict = vec![DictionaryEntry::new("jira", "Jira")];
    let fmt = FormatSettings {
        remove_fillers: true,
        spoken_punctuation: false,
        smart_capitalization: true,
    };
    let formatted = prepare_transcript(&dict, "um, check jira", &fmt);
    assert_eq!(formatted, "Check Jira");
    let r = conclude_dictation(
        &dict,
        "um, check jira".into(),
        formatted.clone(),
        CleanupOutcome::Cleaned("Check jira.".into()),
        "Slack".into(),
        1200,
    );
    assert_eq!(r.final_text, "Check Jira.");
    assert!(r.cleaned);
    assert_eq!(r.skip_reason, "");
    let r = conclude_dictation(
        &dict,
        "um, check jira".into(),
        formatted.clone(),
        CleanupOutcome::Skipped("cleanup disabled".into()),
        "Slack".into(),
        1200,
    );
    assert_eq!(r.final_text, "Check Jira");
    assert!(!r.cleaned);
    assert_eq!(r.skip_reason, "cleanup disabled");
    let c = command_result("make it formal", "Good day.".into(), "Mail".into(), 900);
    assert_eq!(c.raw, "[command] make it formal");
    assert!(c.cleaned);
}

#[test]
fn toggle_stop_hands_over_the_command_and_resets_the_purpose() {
    let mut s = PipelineState::new();
    assert_eq!(s.request_command(true), CommandAction::CopySelection);
    assert_eq!(
        s.selection_copied(Ok(Some("sel".into()))),
        SelectionAction::Start(StartAction::OpenMicrophone)
    );
    s.microphone_opened();
    assert_eq!(
        s.request_toggle(),
        ToggleAction::Stop(StopAction::Process(RecordingPurpose::Command { selection: "sel".into() }))
    );
    s.finish();
    assert_eq!(s.request_start(), StartAction::OpenMicrophone);
    s.microphone_opened();
    assert_eq!(s.request_stop(), StopAction::Process(RecordingPurpose::Dictate));
}
