//! Delivering text into the focused app.
//!
//! Paste is the default: set the clipboard, synthesize Cmd/Ctrl+V, then
//! restore the user's previous clipboard. Type mode simulates real
//! keystrokes for apps that block paste. The keyboard and clipboard are the
//! caller's; this module decides what to do with them.

use crate::settings::InjectionMethod;
use vstd::prelude::*;

verus! {

/// How a piece of text is delivered.
#[derive(Debug, Clone, Copy, PartialEq, Eq, Structural)]
pub enum InjectionStep {
    /// Nothing to insert.
    Nothing,
    /// Clipboard, paste shortcut, clipboard restored.
    Paste,
    /// Simulated keystrokes.
    Type,
    /// Clipboard only; the user pastes.
    Clipboard,
}

/// Decides how `text` is delivered with `method`: empty text needs nothing,
/// otherwise the configured method is used.
pub fn inject_text(text: &str, method: InjectionMethod) -> (step: InjectionStep)
    ensures
        text@.len() == 0 ==> step == InjectionStep::Nothing,
        text@.len() > 0 ==> step == match method {
            InjectionMethod::Paste => InjectionStep::Paste,
            InjectionMethod::Type => InjectionStep::Type,
            InjectionMethod::ClipboardOnly => InjectionStep::Clipboard,
        },
{
    if text.is_empty() {
        return InjectionStep::Nothing;
    }
    match method {
        InjectionMethod::Paste => InjectionStep::Paste,
        InjectionMethod::Type => InjectionStep::Type,
        InjectionMethod::ClipboardOnly => InjectionStep::Clipboard,
    }
}

/// The modifier of the paste/copy shortcuts.
#[derive(Debug, Clone, Copy, PartialEq, Eq, Structural)]
pub enum ShortcutModifier {
    /// Cmd on macOS.
    Meta,
    /// Ctrl elsewhere.
    Control,
}

pub fn shortcut_modifier(macos: bool) -> (m: ShortcutModifier)
    ensures
        m == if macos {
            ShortcutModifier::Meta
        } else {
            ShortcutModifier::Control
        },
{
    if macos {
        ShortcutModifier::Meta
    } else {
        ShortcutModifier::Control
    }
}

/// The copied selection: what the clipboard held after the copy shortcut,
/// if it held non-empty text (the clipboard was cleared first, so nothing
/// there means nothing was selected).
pub fn selection_from_clipboard(text: Option<String>) -> (res: Option<String>)
    ensures
        match text {
            Some(t) => if t@.len() > 0 {
                res == Some(t)
            } else {
                res is None
            },
            None => res is None,
        },
{
    match text {
        Some(t) => if t.as_str().is_empty() {
            None
        } else {
            Some(t)
        },
        None => None,
    }
}

/// The message shown when input simulation is unavailable.
pub fn input_simulation_error(err: &str) -> (m: String)
    ensures
        m@ == "input simulation unavailable: "@ + err@
            + ". On macOS, grant Accessibility permission in System Settings > Privacy & Security > Accessibility."@,
{
    crate::text::concat3(
        "input simulation unavailable: ",
        err,
        ". On macOS, grant Accessibility permission in System Settings > Privacy & Security > Accessibility.",
    )
}

} // verus!
