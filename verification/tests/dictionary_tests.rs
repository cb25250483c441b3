use wisper_core::dictionary::{apply, terms_for_prompt, DictionaryEntry};

#[test]
fn replaces_case_insensitively_on_word_boundaries() {
    let entries = vec![DictionaryEntry::new("jira", "Jira")];
    assert_eq!(apply(&entries, "check jira and JIRA now"), "check Jira and Jira now");
    // No mid-word replacement.
    assert_eq!(apply(&entries, "jirafication"), "jirafication");
}

#[test]
fn longer_entries_win() {
    let entries = vec![
        DictionaryEntry::new("wisper", "Wisper"),
        DictionaryEntry::new("open source wisper", "OpenSourceWisper"),
    ];
    assert_eq!(apply(&entries, "I love open source wisper"), "I love OpenSourceWisper");
}

#[test]
fn disabled_entries_are_skipped() {
    let mut e = DictionaryEntry::new("acme", "ACME Corp");
    e.enabled = false;
    assert_eq!(apply(&[e], "call acme"), "call acme");
}

#[test]
fn snippet_expansion() {
    let entries = vec![DictionaryEntry::new("my signature", "Best regards,\nKylan")];
    assert_eq!(apply(&entries, "my signature"), "Best regards,\nKylan");
}

#[test]
fn blank_entries_and_regex_metacharacters() {
    // `\b` after "++" needs a word character next, so "c++" never matches.
    let entries = vec![
        DictionaryEntry::new("   ", "NOPE"),
        DictionaryEntry::new(" c++ ", "C++"),
        DictionaryEntry::new("a.b", "A-B"),
    ];
    assert_eq!(apply(&entries, "use c++ and a.b not axb"), "use c++ and A-B not axb");
}

#[test]
fn equal_lengths_keep_their_order() {
    // Both spoken forms are four bytes long: the first entry applies first,
    // so its output is what the second entry sees.
    let entries = vec![DictionaryEntry::new("abcd", "wxyz"), DictionaryEntry::new("wxyz", "done")];
    assert_eq!(apply(&entries, "abcd"), "done");
}

#[test]
fn terms_for_prompt_takes_enabled_written_forms() {
    let mut off = DictionaryEntry::new("b", "B");
    off.enabled = false;
    let entries = vec![
        DictionaryEntry::new("a", "A"),
        off,
        DictionaryEntry::new("c", "C"),
        DictionaryEntry::new("d", "D"),
    ];
    assert_eq!(terms_for_prompt(&entries, 2), vec!["A".to_string(), "C".to_string()]);
    assert_eq!(terms_for_prompt(&entries, 10).len(), 3);
    assert!(terms_for_prompt(&entries, 0).is_empty());
}

#[test]
fn written_forms_are_inserted_literally() {
    let entries = vec![
        DictionaryEntry::new("five bucks", "$5"),
        DictionaryEntry::new("my var", "${name} costs $$"),
    ];
    assert_eq!(apply(&entries, "it costs five bucks"), "it costs $5");
    assert_eq!(apply(&entries, "print my var"), "print ${name} costs $$");
}
