//! What the dictation pipeline is doing, and why a recording exists.

use vstd::prelude::*;

verus! {

/// What the pipeline is currently doing; mirrored to the UI and tray.
#[derive(Debug, Clone, Copy, PartialEq, Eq, Structural)]
pub enum DictationPhase {
    Idle,
    Recording,
    Transcribing,
    Cleaning,
    Injecting,
}

impl Default for DictationPhase {
    fn default() -> (r: Self)
        ensures
            r == DictationPhase::Idle,
    {
        DictationPhase::Idle
    }
}

/// Why the current recording exists: normal dictation, or a Command Mode
/// instruction that should rewrite `selection`.
#[derive(Debug, Clone, PartialEq)]
pub enum RecordingPurpose {
    Dictate,
    Command { selection: String },
}

impl Default for RecordingPurpose {
    fn default() -> (r: Self)
        ensures
            r == RecordingPurpose::Dictate,
    {
        RecordingPurpose::Dictate
    }
}

} // verus!
