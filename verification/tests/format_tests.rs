use wisper_core::format::{post_process, remove_fillers};
use wisper_core::settings::FormatSettings;

fn cfg(fillers: bool, spoken: bool, caps: bool) -> FormatSettings {
    FormatSettings {
        remove_fillers: fillers,
        spoken_punctuation: spoken,
        smart_capitalization: caps,
    }
}

#[test]
fn strips_fillers() {
    let got = post_process("Um, I think, uh, we should ship it.", &cfg(true, false, true));
    assert_eq!(got, "I think, we should ship it.");
}

#[test]
fn keeps_fillers_when_disabled() {
    let got = post_process("Um, hello", &cfg(false, false, false));
    assert_eq!(got, "Um, hello");
}

#[test]
fn spoken_punctuation_commands() {
    let got = post_process(
        "send the report period did you get it question mark",
        &cfg(false, true, true),
    );
    assert_eq!(got, "Send the report. Did you get it?");
}

#[test]
fn new_line_command() {
    let got = post_process("first item new line second item", &cfg(false, true, false));
    assert_eq!(got, "first item\nsecond item");
}

#[test]
fn tidies_whitespace_and_capitalizes() {
    let got = post_process("hello   world .  next sentence", &cfg(false, false, true));
    assert_eq!(got, "Hello world. Next sentence");
}

#[test]
fn does_not_eat_the_word_periodic() {
    let got = post_process("the periodic table", &cfg(false, true, false));
    assert_eq!(got, "the periodic table");
}

#[test]
fn remove_fillers_drops_every_filler_form() {
    assert_eq!(remove_fillers("umm hmm erm so uh, yes"), "so yes");
}

#[test]
fn remove_fillers_keeps_words_containing_fillers() {
    assert_eq!(remove_fillers("summer humming"), "summer humming");
}

#[test]
fn post_process_trims_and_keeps_text_when_everything_is_off() {
    assert_eq!(post_process("   plain  text \t ", &cfg(false, false, false)), "plain text");
}

#[test]
fn tidy_keeps_newlines_and_trims_each_line() {
    assert_eq!(post_process("a  \n   b\t\tc  ", &cfg(false, false, false)), "a\nb c");
}

#[test]
fn space_before_punctuation_is_removed_across_newlines() {
    assert_eq!(post_process("yes \n , no", &cfg(false, false, false)), "yes, no");
}

#[test]
fn capitalization_after_quotes_and_newlines() {
    assert_eq!(
        post_process("\u{201C}hi\u{201D} she said. \u{201C}ok\u{201D}\nyes", &cfg(false, false, true)),
        "\u{201C}Hi\u{201D} she said. \u{201C}Ok\u{201D}\nYes"
    );
}

#[test]
fn capitalization_uses_full_uppercase_mapping() {
    assert_eq!(post_process("ßtraße", &cfg(false, false, true)), "SStraße");
}

#[test]
fn spoken_parens_quotes_and_dash() {
    assert_eq!(
        post_process("call me open paren maybe close paren dash ok", &cfg(false, true, false)),
        "call me ( maybe) \u{2014} ok"
    );
    assert_eq!(
        post_process("he said open quote hi close quote", &cfg(false, true, false)),
        "he said \u{201C} hi\u{201D}"
    );
}

#[test]
fn spoken_new_paragraph_and_exclamation() {
    assert_eq!(
        post_process("wow exclamation point new paragraph next", &cfg(false, true, true)),
        "Wow!\n\nNext"
    );
}

#[test]
fn collapsing_blanks_keeps_every_line_break() {
    let got = post_process("x \t y\n\n \t\n  z  \t", &cfg(false, false, false));
    assert_eq!(got, "x y\n\n\nz");
    assert_eq!(got.matches('\n').count(), 3);
    assert!(!got.contains("  ") && !got.contains('\t'));
    assert!(!got.contains(" \n") && !got.contains("\n "));
}

#[test]
fn remove_fillers_drops_er_and_ah() {
    assert_eq!(remove_fillers("er, I think"), "I think");
    assert_eq!(remove_fillers("Ah. so er we go"), "so we go");
    assert_eq!(remove_fillers("ever after aha"), "ever after aha");
}
