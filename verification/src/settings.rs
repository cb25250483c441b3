//! User settings: recording, injection, formatting, LLM cleanup and per-app
//! profiles, with their defaults.

use crate::text::{contains, first_where, lemma_first_where, lemma_first_where_is,
    lemma_first_where_none, contains_exec, chars_of};
use crate::unicode::{lowercase, to_lowercase};
use vstd::prelude::*;

verus! {

/// How recording is triggered from the global hotkey.
#[derive(Debug, Clone, Copy, PartialEq, Eq, Structural)]
pub enum RecordingMode {
    /// Hold the hotkey to record, release to transcribe.
    PushToTalk,
    /// Press once to start, press again to stop.
    Toggle,
}

impl Default for RecordingMode {
    fn default() -> (r: Self)
        ensures
            r == RecordingMode::PushToTalk,
    {
        RecordingMode::PushToTalk
    }
}

/// How transcribed text is delivered into the focused app.
#[derive(Debug, Clone, Copy, PartialEq, Eq, Structural)]
pub enum InjectionMethod {
    /// Copy to clipboard, send Cmd/Ctrl+V, then restore the previous clipboard.
    Paste,
    /// Simulate individual keystrokes.
    Type,
    /// Only place the text on the clipboard; the user pastes manually.
    ClipboardOnly,
}

impl Default for InjectionMethod {
    fn default() -> (r: Self)
        ensures
            r == InjectionMethod::Paste,
    {
        InjectionMethod::Paste
    }
}

/// Which local LLM API the cleanup stage talks to.
#[derive(Debug, Clone, Copy, PartialEq, Eq, Structural)]
pub enum CleanupProvider {
    /// Ollama's native /api/chat endpoint.
    Ollama,
    /// Any OpenAI-compatible /v1/chat/completions endpoint.
    OpenAiCompat,
}

impl Default for CleanupProvider {
    fn default() -> (r: Self)
        ensures
            r == CleanupProvider::Ollama,
    {
        CleanupProvider::Ollama
    }
}

/// Writing tone the cleanup LLM should aim for.
#[derive(Debug, Clone, Copy, PartialEq, Eq, Structural)]
pub enum Tone {
    Auto,
    Casual,
    Professional,
    Technical,
}

impl Default for Tone {
    fn default() -> (r: Self)
        ensures
            r == Tone::Auto,
    {
        Tone::Auto
    }
}

/// Settings for the local-LLM cleanup ("polish") stage.
#[derive(Debug, Clone, PartialEq)]
pub struct CleanupSettings {
    pub enabled: bool,
    pub provider: CleanupProvider,
    /// Base URL of the local LLM server.
    pub base_url: String,
    /// Model name, e.g. "llama3.2:3b".
    pub model: String,
    /// Skip the LLM for transcripts shorter than this many characters.
    pub min_chars: usize,
    /// Abort cleanup and fall back to the raw transcript after this many ms.
    pub timeout_ms: u64,
    pub remove_fillers: bool,
    pub fix_punctuation: bool,
    pub fix_grammar: bool,
    pub format_lists: bool,
    /// Extra user-provided instructions appended to the prompt.
    pub custom_instructions: String,
}

impl Default for CleanupSettings {
    fn default() -> (r: Self)
        ensures
            !r.enabled,
            r.provider == CleanupProvider::Ollama,
            r.base_url@ == "http://localhost:11434"@,
            r.model@ == "llama3.2:3b"@,
            r.min_chars == 40,
            r.timeout_ms == 8000,
            r.remove_fillers && r.fix_punctuation && r.fix_grammar && r.format_lists,
            r.custom_instructions@ == Seq::<char>::empty(),
    {
        CleanupSettings {
            enabled: false,
            provider: CleanupProvider::Ollama,
            base_url: "http://localhost:11434".to_owned(),
            model: "llama3.2:3b".to_owned(),
            min_chars: 40,
            timeout_ms: 8000,
            remove_fillers: true,
            fix_punctuation: true,
            fix_grammar: true,
            format_lists: true,
            custom_instructions: String::new(),
        }
    }
}

/// A per-app profile: when the focused app matches, the tone / instructions override.
#[derive(Debug, Clone, PartialEq)]
pub struct AppProfile {
    /// Human label, e.g. "Slack".
    pub name: String,
    /// Case-insensitive substring matched against the focused app name / window title.
    pub app_match: String,
    pub tone: Tone,
    /// Extra prompt instructions for this app.
    pub instructions: String,
    pub enabled: bool,
}

impl Default for AppProfile {
    fn default() -> (r: Self)
        ensures
            r.name@ == Seq::<char>::empty(),
            r.app_match@ == Seq::<char>::empty(),
            r.tone == Tone::Auto,
            r.instructions@ == Seq::<char>::empty(),
            !r.enabled,
    {
        AppProfile {
            name: String::new(),
            app_match: String::new(),
            tone: Tone::Auto,
            instructions: String::new(),
            enabled: false,
        }
    }
}

/// Non-LLM post-processing applied to every transcript.
#[derive(Debug, Clone, Copy, PartialEq, Eq, Structural)]
pub struct FormatSettings {
    /// Strip "um", "uh", "er"... even when the LLM is off.
    pub remove_fillers: bool,
    /// Interpret spoken commands like "period", "comma", "new line".
    pub spoken_punctuation: bool,
    /// Capitalize sentence starts and tidy whitespace.
    pub smart_capitalization: bool,
}

impl Default for FormatSettings {
    fn default() -> (r: Self)
        ensures
            r == (FormatSettings {
                remove_fillers: true,
                spoken_punctuation: false,
                smart_capitalization: true,
            }),
    {
        FormatSettings { remove_fillers: true, spoken_punctuation: false, smart_capitalization: true }
    }
}

/// Audio capture / silence detection settings.
#[derive(Debug, Clone, PartialEq)]
pub struct AudioSettings {
    /// Preferred input device name; empty = system default.
    pub input_device: String,
    /// In toggle mode, auto-stop after this many ms of silence (0 = never).
    pub silence_autostop_ms: u64,
    /// RMS level under which audio counts as silence, in millionths of full
    /// scale (12_000 is an RMS of 0.012).
    pub silence_threshold_millionths: u32,
    /// Hard cap on a single recording, in seconds.
    pub max_recording_secs: u64,
    /// Play a subtle sound when recording starts/stops.
    pub chimes: bool,
}

impl Default for AudioSettings {
    fn default() -> (r: Self)
        ensures
            r.input_device@ == Seq::<char>::empty(),
            r.silence_autostop_ms == 3000,
            r.silence_threshold_millionths == 12_000,
            r.max_recording_secs == 300,
            r.chimes,
    {
        AudioSettings {
            input_device: String::new(),
            silence_autostop_ms: 3000,
            silence_threshold_millionths: 12_000,
            max_recording_secs: 300,
            chimes: true,
        }
    }
}

/// Top-level persisted settings.
#[derive(Debug, Clone, PartialEq)]
pub struct AppSettings {
    /// Global shortcut in accelerator syntax, e.g. "Ctrl+Shift+Space" or "F9".
    pub hotkey: String,
    /// Optional second hotkey that always records in toggle mode ("hands-free").
    pub hotkey_toggle: String,
    /// Optional Command Mode hotkey.
    pub hotkey_command: String,
    pub recording_mode: RecordingMode,
    pub injection: InjectionMethod,
    /// Filename of the active whisper model, e.g. "ggml-base.en.bin".
    pub model: String,
    /// Spoken language hint ("auto" or ISO 639-1 like "en").
    pub language: String,
    /// Whisper decode threads (0 = auto).
    pub threads: usize,
    pub audio: AudioSettings,
    pub format: FormatSettings,
    pub cleanup: CleanupSettings,
    pub profiles: Vec<AppProfile>,
    /// Show the floating recording indicator overlay.
    pub show_overlay: bool,
    /// Keep dictation history on disk (local only).
    pub save_history: bool,
    pub max_history_entries: usize,
    pub launch_at_login: bool,
}

/// The default push-to-talk hotkey: `Alt+Space` on macOS, `Ctrl+Alt+Space`
/// elsewhere (Fn is not capturable cross-platform and Ctrl+Space collides
/// with input-method switching).
pub open spec fn default_hotkey_spec(macos: bool) -> Seq<char> {
    if macos {
        "Alt+Space"@
    } else {
        "Ctrl+Alt+Space"@
    }
}

pub fn default_hotkey(macos: bool) -> (res: &'static str)
    ensures
        res@ == default_hotkey_spec(macos),
{
    if macos {
        "Alt+Space"
    } else {
        "Ctrl+Alt+Space"
    }
}

fn profile(name: &str, app_match: &str, tone: Tone, instructions: &str) -> (p: AppProfile)
    ensures
        p.name@ == name@,
        p.app_match@ == app_match@,
        p.tone == tone,
        p.instructions@ == instructions@,
        p.enabled,
{
    AppProfile {
        name: name.to_owned(),
        app_match: app_match.to_owned(),
        tone,
        instructions: instructions.to_owned(),
        enabled: true,
    }
}

/// Whether `p` is the `i`-th built-in profile (Slack, Email, Code editor).
pub open spec fn is_default_profile(p: AppProfile, i: int) -> bool {
    &&& p.enabled
    &&& i == 0 ==> p.name@ == "Slack"@ && p.app_match@ == "slack"@ && p.tone == Tone::Casual
        && p.instructions@ == "Keep the message short and conversational."@
    &&& i == 1 ==> p.name@ == "Email"@ && p.app_match@ == "mail"@ && p.tone == Tone::Professional
        && p.instructions@ == "Write complete, well-structured sentences suitable for email."@
    &&& i == 2 ==> p.name@ == "Code editor"@ && p.app_match@ == "code"@ && p.tone
        == Tone::Technical && p.instructions@
        == "Preserve technical terms, identifiers and casing exactly as spoken."@
}

pub fn default_profiles() -> (res: Vec<AppProfile>)
    ensures
        res@.len() == 3,
        forall|i: int| 0 <= i < res@.len() ==> #[trigger] is_default_profile(res@[i], i),
{
    let mut v: Vec<AppProfile> = Vec::new();
    v.push(profile("Slack", "slack", Tone::Casual, "Keep the message short and conversational."));
    v.push(
        profile(
            "Email",
            "mail",
            Tone::Professional,
            "Write complete, well-structured sentences suitable for email.",
        ),
    );
    v.push(
        profile(
            "Code editor",
            "code",
            Tone::Technical,
            "Preserve technical terms, identifiers and casing exactly as spoken.",
        ),
    );
    v
}

impl AppSettings {
    /// The default settings on a platform (`macos` says whether it is macOS,
    /// which decides the default hotkey).
    pub fn defaults_for(macos: bool) -> (r: Self)
        ensures
            r.hotkey@ == default_hotkey_spec(macos),
            r.hotkey_toggle@ == Seq::<char>::empty(),
            r.hotkey_command@ == Seq::<char>::empty(),
            r.recording_mode == RecordingMode::PushToTalk,
            r.injection == InjectionMethod::Paste,
            r.model@ == "ggml-base.en.bin"@,
            r.language@ == "auto"@,
            r.threads == 0,
            r.audio.input_device@ == Seq::<char>::empty(),
            r.audio.silence_autostop_ms == 3000,
            r.audio.silence_threshold_millionths == 12_000,
            r.audio.max_recording_secs == 300,
            r.audio.chimes,
            r.format == (FormatSettings {
                remove_fillers: true,
                spoken_punctuation: false,
                smart_capitalization: true,
            }),
            !r.cleanup.enabled,
            r.cleanup.provider == CleanupProvider::Ollama,
            r.cleanup.base_url@ == "http://localhost:11434"@,
            r.cleanup.model@ == "llama3.2:3b"@,
            r.cleanup.min_chars == 40,
            r.cleanup.timeout_ms == 8000,
            r.cleanup.remove_fillers && r.cleanup.fix_punctuation && r.cleanup.fix_grammar
                && r.cleanup.format_lists,
            r.cleanup.custom_instructions@ == Seq::<char>::empty(),
            r.profiles@.len() == 3,
            forall|i: int| 0 <= i < r.profiles@.len() ==> #[trigger] is_default_profile(r.profiles@[i], i),
            r.show_overlay,
            r.save_history,
            r.max_history_entries == 500,
            !r.launch_at_login,
    {
        let profiles = default_profiles();
        let r = AppSettings {
            hotkey: default_hotkey(macos).to_owned(),
            hotkey_toggle: String::new(),
            hotkey_command: String::new(),
            recording_mode: RecordingMode::PushToTalk,
            injection: InjectionMethod::Paste,
            model: "ggml-base.en.bin".to_owned(),
            language: "auto".to_owned(),
            threads: 0,
            audio: AudioSettings::default(),
            format: FormatSettings::default(),
            cleanup: CleanupSettings::default(),
            profiles,
            show_overlay: true,
            save_history: true,
            max_history_entries: 500,
            launch_at_login: false,
        };
        r
    }
}

/// Whether profile `p` applies to a focused app whose lowercased name is
/// `needle`: it is enabled, has a non-empty match string, and the lowercased
/// match string occurs in `needle`.
pub open spec fn profile_matches(p: AppProfile, needle: Seq<char>) -> bool {
    p.enabled && p.app_match@.len() > 0 && contains(needle, lowercase(p.app_match@))
}

/// Index of the first profile that applies to the app named `app_name`.
pub open spec fn profile_index(profiles: Seq<AppProfile>, app_name: Seq<char>) -> Option<int> {
    first_where(profiles.len(), |i: int| profile_matches(profiles[i], lowercase(app_name)))
}

impl AppSettings {
    /// Find the first enabled profile matching the focused app name
    /// (case-insensitive substring).
    pub fn profile_for_app(&self, app_name: &str) -> (res: Option<&AppProfile>)
        ensures
            match profile_index(self.profiles@, app_name@) {
                Some(i) => res == Some(&self.profiles@[i]),
                None => res is None,
            },
    {
        let needle_s = to_lowercase(app_name);
        let needle = chars_of(needle_s.as_str());
        let ghost pred = |i: int| profile_matches(self.profiles@[i], lowercase(app_name@));
        let mut i: usize = 0;
        while i < self.profiles.len()
            invariant
                i <= self.profiles@.len(),
                needle@ == lowercase(app_name@),
                pred == (|i: int| profile_matches(self.profiles@[i], lowercase(app_name@))),
                forall|k: int| 0 <= k < i ==> !#[trigger] pred(k),
            decreases self.profiles.len() - i,
        {
            let p = &self.profiles[i];
            if p.enabled && !p.app_match.as_str().is_empty() {
                let m = to_lowercase(p.app_match.as_str());
                let mv = chars_of(m.as_str());
                if contains_exec(&needle, &mv) {
                    proof {
                        assert(pred(i as int));
                        lemma_first_where_is(self.profiles@.len(), pred, i as int);
                    }
                    return Some(p);
                }
            }
            assert(!pred(i as int));
            i += 1;
        }
        proof {
            lemma_first_where_none(self.profiles@.len(), pred);
        }
        None
    }
}

/// Law: a profile chosen for an app is enabled, has a non-empty match
/// string, and every profile listed before it does not apply to that app.
pub proof fn lemma_chosen_profile_applies(profiles: Seq<AppProfile>, app_name: Seq<char>)
    ensures
        match profile_index(profiles, app_name) {
            Some(i) => 0 <= i < profiles.len() && profiles[i].enabled && profiles[i].app_match@.len()
                > 0 && contains(lowercase(app_name), lowercase(profiles[i].app_match@)) && forall|
                k: int,
            | 0 <= k < i ==> !profile_matches(#[trigger] profiles[k], lowercase(app_name)),
            None => forall|k: int|
                0 <= k < profiles.len() ==> !profile_matches(
                    #[trigger] profiles[k],
                    lowercase(app_name),
                ),
        },
{
    let pred = |i: int| profile_matches(profiles[i], lowercase(app_name));
    lemma_first_where(profiles.len(), pred);
    match profile_index(profiles, app_name) {
        Some(i) => {
            assert forall|k: int| 0 <= k < i implies !profile_matches(
                #[trigger] profiles[k],
                lowercase(app_name),
            ) by {
                assert(!pred(k));
            }
        },
        None => {
            assert forall|k: int| 0 <= k < profiles.len() implies !profile_matches(
                #[trigger] profiles[k],
                lowercase(app_name),
            ) by {
                assert(!pred(k));
            }
        },
    }
}

} // verus!
