use wisper_core::history::{compaction_lines, load_recent, HistoryEntry};

fn entry(text: &str, secs: i64) -> HistoryEntry {
    HistoryEntry {
        timestamp_secs: secs,
        timestamp_nanos: 0,
        raw: format!("um {text}"),
        final_text: text.into(),
        app: "Test".into(),
        duration_ms: 1200,
        cleaned: true,
    }
}

#[test]
fn newest_first_and_limited() {
    let lines: Vec<Option<HistoryEntry>> =
        (0..5).map(|i| Some(entry(&format!("entry {i}"), i))).collect();
    let recent = load_recent(lines.clone(), 3);
    assert_eq!(recent.len(), 3);
    assert_eq!(recent[0].final_text, "entry 4");
    assert_eq!(recent[2].final_text, "entry 2");
    assert_eq!(load_recent(lines, 10).len(), 5);
}

#[test]
fn unreadable_lines_are_skipped() {
    let lines = vec![Some(entry("good", 1)), None, Some(entry("also good", 2))];
    let recent = load_recent(lines, 10);
    assert_eq!(recent.len(), 2);
    assert_eq!(recent[0].final_text, "also good");
}

#[test]
fn compaction_writes_oldest_first_and_reloads_the_same() {
    let lines: Vec<Option<HistoryEntry>> =
        (0..5).map(|i| Some(entry(&format!("entry {i}"), i))).collect();
    let kept = load_recent(lines, 2);
    let written = compaction_lines(kept.clone());
    assert_eq!(written[0].final_text, "entry 3");
    assert_eq!(written[1].final_text, "entry 4");
    let reloaded = load_recent(written.into_iter().map(Some).collect(), 10);
    assert_eq!(reloaded, kept);
}

#[test]
fn zero_limit_loads_nothing() {
    assert!(load_recent(vec![Some(entry("x", 0))], 0).is_empty());
}

// The file holds one line per entry, oldest first; `None` stands for a line
// that does not parse. Appending pushes a line, compaction replaces the
// lines by `compaction_lines`, clearing empties them.

#[test]
fn append_load_compact_clear() {
    let mut file: Vec<Option<HistoryEntry>> = Vec::new();
    for i in 0..5 {
        file.push(Some(entry(&format!("entry {i}"), i)));
    }
    let recent = load_recent(file.clone(), 3);
    assert_eq!(recent.len(), 3);
    assert_eq!(recent[0].final_text, "entry 4"); // newest first

    let kept = load_recent(file.clone(), 2);
    assert_eq!(kept.len(), 2);
    file = compaction_lines(kept).into_iter().map(Some).collect();
    assert_eq!(load_recent(file.clone(), 10).len(), 2);

    file.clear();
    assert!(load_recent(file, 10).is_empty());
}

#[test]
fn corrupt_lines_are_skipped() {
    let file = vec![Some(entry("good", 1)), None, Some(entry("also good", 2))];
    assert_eq!(load_recent(file, 10).len(), 2);
}
