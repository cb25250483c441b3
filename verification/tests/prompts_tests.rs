use wisper_core::prompts::{build_command_prompt, build_system_prompt, build_user_prompt, CORE_RULES};
use wisper_core::settings::{AppProfile, CleanupSettings, Tone};

#[test]
fn sections_toggle() {
    let mut cfg = CleanupSettings::default();
    cfg.format_lists = false;
    let p = build_system_prompt(&cfg, None, &[]);
    assert!(p.contains("filler words"));
    assert!(!p.contains("format them as a list"));
}

#[test]
fn profile_and_dictionary_are_included() {
    let cfg = CleanupSettings::default();
    let profile = AppProfile {
        name: "Slack".into(),
        app_match: "slack".into(),
        tone: Tone::Casual,
        instructions: "Keep it brief.".into(),
        enabled: true,
    };
    let p = build_system_prompt(&cfg, Some(&profile), &["Kubernetes".into()]);
    assert!(p.contains("inserted into Slack"));
    assert!(p.contains("casual and conversational"));
    assert!(p.contains("Keep it brief."));
    assert!(p.contains("Kubernetes"));
}

#[test]
fn minimal_prompt_is_just_the_core_rules() {
    let mut cfg = CleanupSettings::default();
    cfg.remove_fillers = false;
    cfg.fix_punctuation = false;
    cfg.fix_grammar = false;
    cfg.format_lists = false;
    cfg.custom_instructions = "   ".into();
    assert_eq!(build_system_prompt(&cfg, None, &[]), CORE_RULES);
}

#[test]
fn auto_tone_profile_line_and_custom_instructions() {
    let mut cfg = CleanupSettings::default();
    cfg.remove_fillers = false;
    cfg.fix_punctuation = false;
    cfg.fix_grammar = false;
    cfg.format_lists = false;
    cfg.custom_instructions = "  Be terse.  ".into();
    let profile = AppProfile {
        name: "Notes".into(),
        app_match: "notes".into(),
        tone: Tone::Auto,
        instructions: "   ".into(),
        enabled: true,
    };
    let p = build_system_prompt(&cfg, Some(&profile), &["A".into(), "B".into()]);
    let expected = format!(
        "{CORE_RULES}\n\nThe text will be inserted into Notes.\n\nSpell these user-specific terms exactly as written when they appear: A, B.\n\nBe terse."
    );
    assert_eq!(p, expected);
}

#[test]
fn user_and_command_prompts() {
    assert_eq!(build_user_prompt("hi"), "Transcript:\nhi");
    assert_eq!(
        build_command_prompt("shorten", "a b c"),
        "Instruction: shorten\n\nText:\na b c"
    );
}
