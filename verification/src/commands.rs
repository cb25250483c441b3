//! The decisions behind the app's commands: model list entries, whether a
//! settings change needs the hotkeys re-registered, and the cleanup
//! connection test.

use crate::cleanup::CleanupOutcome;
use crate::models::ModelInfo;
use crate::settings::{AppSettings, CleanupSettings};
use crate::text::{str_eq, views};
use vstd::prelude::*;

verus! {

/// A catalog model together with its state on this machine.
#[derive(Debug, Clone, PartialEq)]
pub struct ModelStatus {
    pub info: ModelInfo,
    pub downloaded: bool,
    pub downloading: bool,
    pub active: bool,
}

/// The status of `info`: whether its file is on disk (`downloaded`), among
/// the files being downloaded, and the selected model.
pub fn model_status(info: ModelInfo, downloaded: bool, downloading: &[String], active: &str) -> (res:
    ModelStatus)
    ensures
        res.info == info,
        res.downloaded == downloaded,
        res.downloading == views(downloading@).contains(info.file@),
        res.active == (info.file@ == active@),
{
    let mut found = false;
    let mut i: usize = 0;
    while i < downloading.len()
        invariant
            i <= downloading@.len(),
            found <==> exists|k: int| 0 <= k < i && #[trigger] downloading@[k]@ == info.file@,
        decreases downloading.len() - i,
    {
        if str_eq(downloading[i].as_str(), info.file.as_str()) {
            found = true;
        }
        i += 1;
    }
    proof {
        let vs = views(downloading@);
        if found {
            let k = choose|k: int| 0 <= k < downloading@.len() && #[trigger] downloading@[k]@
                == info.file@;
            assert(vs[k] == info.file@);
        } else {
            assert forall|k: int| 0 <= k < vs.len() implies vs[k] != info.file@ by {
                assert(vs[k] == downloading@[k]@);
            }
        }
    }
    let active = str_eq(info.file.as_str(), active);
    ModelStatus { info, downloaded, downloading: found, active }
}

/// Whether saving `new` over `current` requires re-registering the global
/// shortcuts: the main, the toggle or the Command Mode hotkey changed.
pub fn hotkeys_changed(current: &AppSettings, new: &AppSettings) -> (b: bool)
    ensures
        b == (current.hotkey@ != new.hotkey@ || current.hotkey_toggle@ != new.hotkey_toggle@
            || current.hotkey_command@ != new.hotkey_command@),
{
    !str_eq(current.hotkey.as_str(), new.hotkey.as_str()) || !str_eq(
        current.hotkey_toggle.as_str(),
        new.hotkey_toggle.as_str(),
    ) || !str_eq(current.hotkey_command.as_str(), new.hotkey_command.as_str())
}

/// The canned transcript sent by the connection test.
pub const TEST_CLEANUP_SAMPLE: &'static str =
    "um so basically i think we should uh ship the new feature on monday";

/// The cleanup settings for the connection test: the user's, but enabled
/// and with no minimum length.
pub fn test_cleanup_settings(cfg: &CleanupSettings) -> (res: CleanupSettings)
    ensures
        res.enabled,
        res.min_chars == 1,
        res.provider == cfg.provider,
        res.base_url == cfg.base_url,
        res.model == cfg.model,
        res.timeout_ms == cfg.timeout_ms,
        res.remove_fillers == cfg.remove_fillers,
        res.fix_punctuation == cfg.fix_punctuation,
        res.fix_grammar == cfg.fix_grammar,
        res.format_lists == cfg.format_lists,
        res.custom_instructions == cfg.custom_instructions,
{
    CleanupSettings {
        enabled: true,
        provider: cfg.provider,
        base_url: cfg.base_url.clone(),
        model: cfg.model.clone(),
        min_chars: 1,
        timeout_ms: cfg.timeout_ms,
        remove_fillers: cfg.remove_fillers,
        fix_punctuation: cfg.fix_punctuation,
        fix_grammar: cfg.fix_grammar,
        format_lists: cfg.format_lists,
        custom_instructions: cfg.custom_instructions.clone(),
    }
}

/// The connection test's answer: the cleaned text, or why cleanup was skipped.
pub fn test_cleanup_result(outcome: CleanupOutcome) -> (res: Result<String, String>)
    ensures
        match outcome {
            CleanupOutcome::Cleaned(t) => res == Ok::<String, String>(t),
            CleanupOutcome::Skipped(r) => res == Err::<String, String>(r),
        },
{
    match outcome {
        CleanupOutcome::Cleaned(t) => Ok(t),
        CleanupOutcome::Skipped(reason) => Err(reason),
    }
}

} // verus!
