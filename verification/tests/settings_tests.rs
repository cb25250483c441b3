use wisper_core::settings::{AppSettings, RecordingMode, Tone};

#[test]
fn profile_matching_is_case_insensitive_substring() {
    let s = AppSettings::defaults_for(false);
    let p = s.profile_for_app("Slack — #general").unwrap();
    assert_eq!(p.name, "Slack");
    assert!(s.profile_for_app("Firefox").is_none());
    let p = s.profile_for_app("Visual Studio Code").unwrap();
    assert_eq!(p.name, "Code editor");
}

#[test]
fn defaults_depend_on_platform_only_for_the_hotkey() {
    let mac = AppSettings::defaults_for(true);
    let other = AppSettings::defaults_for(false);
    assert_eq!(mac.hotkey, "Alt+Space");
    assert_eq!(other.hotkey, "Ctrl+Alt+Space");
    assert_eq!(other.recording_mode, RecordingMode::PushToTalk);
    assert_eq!(other.profiles.len(), 3);
    assert_eq!(other.profiles[1].tone, Tone::Professional);
    assert_eq!(other.max_history_entries, 500);
}

#[test]
fn disabled_and_empty_profiles_never_match() {
    let mut s = AppSettings::defaults_for(false);
    s.profiles[0].enabled = false;
    assert!(s.profile_for_app("Slack").is_none());
    s.profiles[1].app_match = String::new();
    assert!(s.profile_for_app("Mail").is_none());
    assert_eq!(s.profile_for_app("MAIL and CODE").unwrap().name, "Code editor");
}
