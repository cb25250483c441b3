use wisper_core::models::{catalog, find};

#[test]
fn catalog_is_sane() {
    let all = catalog();
    assert!(all.len() >= 6);
    assert!(all.iter().any(|m| m.recommended));
    for m in &all {
        assert!(m.url.starts_with("https://huggingface.co/"));
        assert!(m.url.ends_with(&m.file));
        assert!(m.size_mb > 0);
    }
}

#[test]
fn find_by_file() {
    assert!(find("ggml-base.en.bin").is_some());
    assert!(find("nope.bin").is_none());
}

#[test]
fn catalog_entries_are_exact() {
    let m = find("ggml-large-v3-turbo-q5_0.bin").unwrap();
    assert_eq!(m.label, "Large v3 Turbo (Q5 quantized)");
    assert_eq!(m.size_mb, 574);
    assert!(!m.english_only && !m.recommended);
    assert_eq!(
        m.url,
        "https://huggingface.co/ggerganov/whisper.cpp/resolve/main/ggml-large-v3-turbo-q5_0.bin"
    );
    let files: Vec<String> = catalog().into_iter().map(|m| m.file).collect();
    assert_eq!(files.len(), 9);
    assert_eq!(files[0], "ggml-tiny.en.bin");
    assert_eq!(files[2], "ggml-base.en.bin");
}

#[test]
fn every_catalog_file_finds_its_own_entry() {
    let all = catalog();
    for (i, m) in all.iter().enumerate() {
        let found = find(&m.file).unwrap();
        assert_eq!(found, all[i]);
        for other in &all[i + 1..] {
            assert_ne!(m.file, other.file);
        }
    }
}
