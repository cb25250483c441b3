use wisper_core::asr::{
    assemble_transcript, collapse_whitespace, decode_threads, dictionary_prompt, language_hint,
};
use wisper_core::audio::{input_device_index, padded_sample_count, recording_duration_ms};
use wisper_core::cleanup::CleanupOutcome;
use wisper_core::commands::{
    hotkeys_changed, model_status, test_cleanup_result, test_cleanup_settings,
};
use wisper_core::context::focused_app_label;
use wisper_core::downloads::{
    begin_download, check_deletable, download_done, end_download, expected_total,
    model_to_download, progress_due,
};
use wisper_core::hotkeys::{hotkeys_to_register, registration_error, shortcut_action, HotkeyAction};
use wisper_core::inject::{inject_text, selection_from_clipboard, InjectionStep};
use wisper_core::models::find;
use wisper_core::overlay::{overlay_action, tray_command, OverlayAction, TrayCommand};
use wisper_core::settings::{AppSettings, CleanupSettings, InjectionMethod, RecordingMode};
use wisper_core::state::DictationPhase;

#[test]
fn glossary_prompt() {
    assert_eq!(dictionary_prompt(&[]), "");
    assert_eq!(
        dictionary_prompt(&["Jira".to_string(), "Kubernetes".to_string()]),
        "Glossary: Jira, Kubernetes."
    );
}

#[test]
fn transcript_assembly() {
    assert_eq!(collapse_whitespace("a \t\n b  c"), "a b c");
    assert_eq!(
        assemble_transcript(&[" Hello".to_string(), "  world. ".to_string(), "\n".to_string()]),
        "Hello world."
    );
}

#[test]
fn decoding_parameters() {
    assert_eq!(decode_threads(0, Some(16)), 8);
    assert_eq!(decode_threads(0, Some(2)), 2);
    assert_eq!(decode_threads(0, None), 4);
    assert_eq!(decode_threads(6, Some(2)), 6);
    assert_eq!(language_hint("auto"), None);
    assert_eq!(language_hint(""), None);
    assert_eq!(language_hint("en"), Some("en"));
    assert_eq!(padded_sample_count(100), 16_000);
    assert_eq!(padded_sample_count(20_000), 20_000);
    assert_eq!(recording_duration_ms(48_000, 48_000), 1000);
    assert_eq!(recording_duration_ms(5, 0), 5000);
}

#[test]
fn hotkey_registration_skips_blank_and_repeated_keys() {
    let regs = hotkeys_to_register(" F9 ", "F9", "  ");
    assert_eq!(regs.len(), 1);
    assert_eq!(regs[0].label, "hotkey");
    assert_eq!(regs[0].key, "F9");
    let regs = hotkeys_to_register("Alt+Space", "F8", "F7");
    let labels: Vec<&str> = regs.iter().map(|r| r.label.as_str()).collect();
    assert_eq!(labels, vec!["hotkey", "toggle hotkey", "command hotkey"]);
}

#[test]
fn shortcut_actions() {
    let ptt = RecordingMode::PushToTalk;
    let tog = RecordingMode::Toggle;
    assert_eq!(shortcut_action(true, false, false, ptt, true), HotkeyAction::StartRecording);
    assert_eq!(shortcut_action(true, false, false, ptt, false), HotkeyAction::StopAndProcess);
    assert_eq!(shortcut_action(true, false, false, tog, true), HotkeyAction::ToggleRecording);
    assert_eq!(shortcut_action(true, false, false, tog, false), HotkeyAction::Nothing);
    assert_eq!(shortcut_action(false, true, false, tog, true), HotkeyAction::StartCommand);
    assert_eq!(shortcut_action(false, true, false, tog, false), HotkeyAction::StopAndProcess);
    assert_eq!(shortcut_action(false, false, true, ptt, true), HotkeyAction::ToggleRecording);
    assert_eq!(shortcut_action(false, false, true, ptt, false), HotkeyAction::Nothing);
    // The main hotkey wins when one accelerator is configured twice.
    assert_eq!(shortcut_action(true, true, true, ptt, true), HotkeyAction::StartRecording);
}

#[test]
fn injection_and_selection() {
    assert_eq!(inject_text("", InjectionMethod::Type), InjectionStep::Nothing);
    assert_eq!(inject_text("hi", InjectionMethod::Paste), InjectionStep::Paste);
    assert_eq!(inject_text("hi", InjectionMethod::Type), InjectionStep::Type);
    assert_eq!(inject_text("hi", InjectionMethod::ClipboardOnly), InjectionStep::Clipboard);
    assert_eq!(selection_from_clipboard(Some(String::new())), None);
    assert_eq!(selection_from_clipboard(Some("x".into())), Some("x".to_string()));
    assert_eq!(selection_from_clipboard(None), None);
}

#[test]
fn overlay_and_tray() {
    assert_eq!(overlay_action(false, DictationPhase::Recording), OverlayAction::HideIfPresent);
    assert_eq!(overlay_action(true, DictationPhase::Idle), OverlayAction::Hide);
    assert_eq!(overlay_action(true, DictationPhase::Injecting), OverlayAction::Show);
    assert_eq!(tray_command("open"), TrayCommand::Open);
    assert_eq!(tray_command("toggle"), TrayCommand::Toggle);
    assert_eq!(tray_command("quit"), TrayCommand::Quit);
    assert_eq!(tray_command("other"), TrayCommand::Unknown);
}

#[test]
fn focused_app_name_falls_back_to_title() {
    assert_eq!(focused_app_label("Slack".into(), "general".into()), "Slack");
    assert_eq!(focused_app_label(String::new(), "Inbox - Mail".into()), "Inbox - Mail");
}

#[test]
fn downloads_are_never_doubled() {
    let mut downloading: Vec<String> = Vec::new();
    assert_eq!(begin_download(&mut downloading, "a.bin"), Ok(()));
    assert_eq!(begin_download(&mut downloading, "b.bin"), Ok(()));
    assert_eq!(
        begin_download(&mut downloading, "a.bin"),
        Err("already downloading".to_string())
    );
    end_download(&mut downloading, "a.bin");
    assert_eq!(downloading, vec!["b.bin".to_string()]);
    assert_eq!(begin_download(&mut downloading, "a.bin"), Ok(()));
    end_download(&mut downloading, "missing.bin");
    assert_eq!(downloading.len(), 2);
}

#[test]
fn download_bookkeeping() {
    assert!(model_to_download("ggml-tiny.bin").is_ok());
    assert_eq!(
        model_to_download("nope.bin"),
        Err("unknown model: nope.bin".to_string())
    );
    assert_eq!(expected_total(Some(10), 75), 10);
    assert_eq!(expected_total(None, 75), 75 * 1024 * 1024);
    assert!(progress_due(151) && !progress_due(150));
    assert_eq!(download_done("f".into(), &Ok(())).error, "");
    assert_eq!(download_done("f".into(), &Err("boom".into())).error, "boom");
    assert_eq!(
        check_deletable("ggml-base.en.bin", "ggml-base.en.bin"),
        Err("cannot delete the currently selected model".to_string())
    );
    assert_eq!(check_deletable("ggml-base.en.bin", "ggml-tiny.bin"), Ok(()));
}

#[test]
fn model_list_entries() {
    let info = find("ggml-base.en.bin").unwrap();
    let st = model_status(info.clone(), true, &["ggml-base.en.bin".to_string()], "ggml-base.en.bin");
    assert!(st.downloaded && st.downloading && st.active);
    let st = model_status(info, false, &[], "ggml-tiny.bin");
    assert!(!st.downloaded && !st.downloading && !st.active);
}

#[test]
fn settings_commands() {
    let a = AppSettings::defaults_for(false);
    let mut b = AppSettings::defaults_for(false);
    assert!(!hotkeys_changed(&a, &b));
    b.hotkey_command = "F7".into();
    assert!(hotkeys_changed(&a, &b));
    let mut c = AppSettings::defaults_for(false);
    c.hotkey_toggle = "F8".into();
    assert!(hotkeys_changed(&a, &c));
    let mut d = AppSettings::defaults_for(false);
    d.hotkey = "F9".into();
    assert!(hotkeys_changed(&a, &d));
    let t = test_cleanup_settings(&CleanupSettings::default());
    assert!(t.enabled);
    assert_eq!(t.min_chars, 1);
    assert_eq!(t.base_url, "http://localhost:11434");
    assert_eq!(test_cleanup_result(CleanupOutcome::Cleaned("x".into())), Ok("x".to_string()));
    assert_eq!(test_cleanup_result(CleanupOutcome::Skipped("y".into())), Err("y".to_string()));
}

#[test]
fn input_device_is_found_by_exact_name_or_defaults() {
    let names = vec![
        Some("Built-in Microphone".to_string()),
        None,
        Some("USB Mic".to_string()),
        Some("USB Mic".to_string()),
    ];
    assert_eq!(input_device_index("USB Mic", &names), Some(2));
    assert_eq!(input_device_index("Built-in Microphone", &names), Some(0));
    assert_eq!(input_device_index("usb mic", &names), None);
    assert_eq!(input_device_index("", &names), None);
    assert_eq!(input_device_index("USB Mic", &[]), None);
}

#[test]
fn assembled_transcript_is_single_spaced() {
    let t = assemble_transcript(&[
        "\u{3000} Hi,\n".to_string(),
        "\t there\u{00A0}\u{2003} you ".to_string(),
        " \n".to_string(),
    ]);
    assert_eq!(t, "Hi, there you");
    assert!(!t.contains("  "));
    assert!(t.chars().all(|c| !c.is_whitespace() || c == ' '));
}

#[test]
fn registration_errors_name_the_hotkey() {
    let regs = hotkeys_to_register(" F5 ", "", "Alt+X");
    assert_eq!(
        registration_error(&regs[1], true, "unknown key"),
        "invalid command hotkey \"Alt+X\": unknown key"
    );
    assert_eq!(
        registration_error(&regs[0], false, "taken"),
        "could not register hotkey \"F5\": taken"
    );
}
