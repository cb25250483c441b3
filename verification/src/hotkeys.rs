//! Global hotkey decisions: which shortcuts to register, and what a
//! shortcut event does.
//!
//! Push-to-talk: press starts recording, release stops and processes.
//! Toggle mode (and the dedicated toggle hotkey) flips on press only.
//! Command Mode is always push-to-talk.

use crate::settings::RecordingMode;
use crate::text::{chars_of, chars_eq, extend_chars, trim, trim_chars, string_of};
use vstd::prelude::*;

verus! {

/// A shortcut to register, with the label used in error messages.
#[derive(Debug, Clone, PartialEq)]
pub struct HotkeyRegistration {
    pub label: String,
    pub key: String,
}

/// The three configured hotkeys with their labels, in registration order.
pub open spec fn hotkey_slots(main: Seq<char>, toggle: Seq<char>, command: Seq<char>) -> Seq<
    (Seq<char>, Seq<char>),
> {
    seq![("hotkey"@, main), ("toggle hotkey"@, toggle), ("command hotkey"@, command)]
}

/// Registrations for the first `n` slots: each key is trimmed; empty keys
/// and keys already registered are skipped.
pub open spec fn registrations_upto(slots: Seq<(Seq<char>, Seq<char>)>, n: nat) -> Seq<
    (Seq<char>, Seq<char>),
>
    decreases n,
{
    if n == 0 {
        Seq::empty()
    } else {
        let prev = registrations_upto(slots, (n - 1) as nat);
        let key = trim(slots[n - 1].1);
        if key.len() == 0 || exists|k: int| 0 <= k < prev.len() && #[trigger] prev[k].1 == key {
            prev
        } else {
            prev.push((slots[n - 1].0, key))
        }
    }
}

pub open spec fn registration_view(r: HotkeyRegistration) -> (Seq<char>, Seq<char>) {
    (r.label@, r.key@)
}

fn slot_label(i: usize) -> (l: &'static str)
    requires
        i < 3,
    ensures
        l@ == hotkey_slots(Seq::empty(), Seq::empty(), Seq::empty())[i as int].0,
{
    if i == 0 {
        "hotkey"
    } else if i == 1 {
        "toggle hotkey"
    } else {
        "command hotkey"
    }
}

/// The shortcuts to (re-)register from the settings' hotkeys.
pub fn hotkeys_to_register(main: &str, toggle: &str, command: &str) -> (res: Vec<
    HotkeyRegistration,
>)
    ensures
        res@.map_values(|r: HotkeyRegistration| registration_view(r)) == registrations_upto(
            hotkey_slots(main@, toggle@, command@),
            3,
        ),
{
    let ghost slots = hotkey_slots(main@, toggle@, command@);
    let mut out: Vec<HotkeyRegistration> = Vec::new();
    let mut seen: Vec<Vec<char>> = Vec::new();
    let mut i: usize = 0;
    while i < 3
        invariant
            i <= 3,
            slots == hotkey_slots(main@, toggle@, command@),
            out@.len() == seen@.len(),
            forall|k: int| 0 <= k < seen@.len() ==> #[trigger] seen@[k]@ == out@[k].key@,
            out@.map_values(|r: HotkeyRegistration| registration_view(r)) == registrations_upto(
                slots,
                i as nat,
            ),
        decreases 3 - i,
    {
        let raw = if i == 0 {
            main
        } else if i == 1 {
            toggle
        } else {
            command
        };
        assert(raw@ == slots[i as int].1);
        let kv = chars_of(raw);
        let key = trim_chars(&kv);
        let ghost prev = registrations_upto(slots, i as nat);
        let ghost outv = out@.map_values(|r: HotkeyRegistration| registration_view(r));
        let mut dup = false;
        let mut j: usize = 0;
        while j < seen.len()
            invariant
                j <= seen@.len(),
                out@.len() == seen@.len(),
                forall|k: int| 0 <= k < seen@.len() ==> #[trigger] seen@[k]@ == out@[k].key@,
                outv == out@.map_values(|r: HotkeyRegistration| registration_view(r)),
                outv == prev,
                dup <==> exists|k: int| 0 <= k < j && #[trigger] prev[k].1 == key@,
            decreases seen.len() - j,
        {
            assert(prev[j as int].1 == out@[j as int].key@);
            if chars_eq(&seen[j], &key) {
                dup = true;
            }
            j += 1;
        }
        if key.len() > 0 && !dup {
            let reg = HotkeyRegistration { label: slot_label(i).to_owned(), key: string_of(&key) };
            out.push(reg);
            seen.push(key);
            proof {
                assert(out@.map_values(|r: HotkeyRegistration| registration_view(r)) == prev.push(
                    (slots[i as int].0, trim(slots[i as int].1)),
                ));
            }
        }
        i += 1;
    }
    out
}

/// Law: the registered shortcuts are trimmed, non-empty and pairwise
/// different.
pub proof fn lemma_registrations_distinct(slots: Seq<(Seq<char>, Seq<char>)>, n: nat)
    requires
        n <= slots.len(),
    ensures
        forall|k: int|
            0 <= k < registrations_upto(slots, n).len() ==> #[trigger] registrations_upto(
                slots,
                n,
            )[k].1.len() > 0,
        forall|a: int, b: int|
            0 <= a < b < registrations_upto(slots, n).len() ==> #[trigger] registrations_upto(
                slots,
                n,
            )[a].1 != #[trigger] registrations_upto(slots, n)[b].1,
    decreases n,
{
    if n > 0 {
        lemma_registrations_distinct(slots, (n - 1) as nat);
        let prev = registrations_upto(slots, (n - 1) as nat);
        let cur = registrations_upto(slots, n);
        assert forall|a: int, b: int| 0 <= a < b < cur.len() implies #[trigger] cur[a].1
            != #[trigger] cur[b].1 by {
            if b < prev.len() {
                assert(cur[a] == prev[a] && cur[b] == prev[b]);
            } else {
                assert(cur[a] == prev[a]);
            }
        }
        assert forall|k: int| 0 <= k < cur.len() implies #[trigger] cur[k].1.len() > 0 by {
            if k < prev.len() {
                assert(cur[k] == prev[k]);
            }
        }
    }
}

/// The error reported when a shortcut cannot be registered: its key does
/// not parse as a shortcut (`parse_failed`), or registering it failed (for
/// example because another app holds it). `err` is the underlying error.
pub fn registration_error(reg: &HotkeyRegistration, parse_failed: bool, err: &str) -> (res: String)
    ensures
        res@ == (if parse_failed {
            "invalid "@
        } else {
            "could not register "@
        }) + reg.label@ + " \""@ + reg.key@ + "\": "@ + err@,
{
    let mut v: Vec<char> = Vec::new();
    if parse_failed {
        extend_chars(&mut v, "invalid ");
    } else {
        extend_chars(&mut v, "could not register ");
    }
    extend_chars(&mut v, reg.label.as_str());
    extend_chars(&mut v, " \"");
    extend_chars(&mut v, reg.key.as_str());
    extend_chars(&mut v, "\": ");
    extend_chars(&mut v, err);
    string_of(&v)
}

/// What a shortcut event does.
#[derive(Debug, Clone, Copy, PartialEq, Eq, Structural)]
pub enum HotkeyAction {
    Nothing,
    StartRecording,
    StopAndProcess,
    ToggleRecording,
    StartCommand,
}

/// What the shortcut event does, given which configured hotkey it matches
/// (checked in the order main, command, toggle), the recording mode, and
/// whether the key went down (`pressed`) or up.
pub open spec fn shortcut_action_spec(
    is_main: bool,
    is_command: bool,
    is_toggle: bool,
    mode: RecordingMode,
    pressed: bool,
) -> HotkeyAction {
    if is_main {
        match mode {
            RecordingMode::PushToTalk => if pressed {
                HotkeyAction::StartRecording
            } else {
                HotkeyAction::StopAndProcess
            },
            RecordingMode::Toggle => if pressed {
                HotkeyAction::ToggleRecording
            } else {
                HotkeyAction::Nothing
            },
        }
    } else if is_command {
        if pressed {
            HotkeyAction::StartCommand
        } else {
            HotkeyAction::StopAndProcess
        }
    } else if is_toggle && pressed {
        HotkeyAction::ToggleRecording
    } else {
        HotkeyAction::Nothing
    }
}

pub fn shortcut_action(
    is_main: bool,
    is_command: bool,
    is_toggle: bool,
    mode: RecordingMode,
    pressed: bool,
) -> (a: HotkeyAction)
    ensures
        a == shortcut_action_spec(is_main, is_command, is_toggle, mode, pressed),
{
    if is_main {
        match mode {
            RecordingMode::PushToTalk => if pressed {
                HotkeyAction::StartRecording
            } else {
                HotkeyAction::StopAndProcess
            },
            RecordingMode::Toggle => if pressed {
                HotkeyAction::ToggleRecording
            } else {
                HotkeyAction::Nothing
            },
        }
    } else if is_command {
        if pressed {
            HotkeyAction::StartCommand
        } else {
            HotkeyAction::StopAndProcess
        }
    } else if is_toggle && pressed {
        HotkeyAction::ToggleRecording
    } else {
        HotkeyAction::Nothing
    }
}

} // verus!
