//! Floating recording indicator: a small always-on-top pill that shows the
//! current pipeline phase.

use crate::state::DictationPhase;
use vstd::prelude::*;

verus! {

/// What happens to the indicator window.
#[derive(Debug, Clone, Copy, PartialEq, Eq, Structural)]
pub enum OverlayAction {
    /// Indicator disabled: hide the window if it exists, never create it.
    HideIfPresent,
    /// Create the window if needed, then hide it.
    Hide,
    /// Create the window if needed, then show it.
    Show,
}

/// The indicator follows the phase: visible whenever the pipeline is not
/// idle, unless the user turned it off.
pub fn overlay_action(show_overlay: bool, phase: DictationPhase) -> (a: OverlayAction)
    ensures
        !show_overlay ==> a == OverlayAction::HideIfPresent,
        show_overlay && phase == DictationPhase::Idle ==> a == OverlayAction::Hide,
        show_overlay && phase != DictationPhase::Idle ==> a == OverlayAction::Show,
{
    if !show_overlay {
        return OverlayAction::HideIfPresent;
    }
    match phase {
        DictationPhase::Idle => OverlayAction::Hide,
        _ => OverlayAction::Show,
    }
}

/// The tray menu's items.
#[derive(Debug, Clone, Copy, PartialEq, Eq, Structural)]
pub enum TrayCommand {
    Open,
    Toggle,
    Quit,
    Unknown,
}

/// The tray menu item with identifier `id`.
pub fn tray_command(id: &str) -> (c: TrayCommand)
    ensures
        c == if id@ == "open"@ {
            TrayCommand::Open
        } else if id@ == "toggle"@ {
            TrayCommand::Toggle
        } else if id@ == "quit"@ {
            TrayCommand::Quit
        } else {
            TrayCommand::Unknown
        },
{
    if crate::text::str_eq(id, "open") {
        TrayCommand::Open
    } else if crate::text::str_eq(id, "toggle") {
        TrayCommand::Toggle
    } else if crate::text::str_eq(id, "quit") {
        TrayCommand::Quit
    } else {
        TrayCommand::Unknown
    }
}

} // verus!
