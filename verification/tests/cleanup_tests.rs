use wisper_core::cleanup::{
    finish_cleanup, finish_cleanup_checked, finish_command_edit, plan_cleanup, plan_command_edit, sanitize_llm_output,
    ChatReply, CleanupOutcome,
};
use wisper_core::settings::{CleanupProvider, CleanupSettings};

#[test]
fn disabled_or_short_is_skipped() {
    let mut cfg = CleanupSettings::default();
    cfg.enabled = false;
    let out = plan_cleanup(&cfg, "hello there everyone", None, &[]);
    assert!(matches!(out, Err(CleanupOutcome::Skipped(_))));

    cfg.enabled = true;
    cfg.min_chars = 100;
    let out = plan_cleanup(&cfg, "short", None, &[]);
    assert!(matches!(out, Err(CleanupOutcome::Skipped(_))));
}

#[test]
fn unreachable_server_fails_open() {
    let mut cfg = CleanupSettings::default();
    cfg.enabled = true;
    cfg.min_chars = 1;
    cfg.timeout_ms = 1500;
    cfg.base_url = "http://127.0.0.1:1".into(); // nothing listens here
    let req = plan_cleanup(&cfg, "hello world this is a test", None, &[]).unwrap();
    assert_eq!(req.url, "http://127.0.0.1:1/api/chat");
    let out = finish_cleanup(
        cfg.provider,
        "hello world this is a test",
        ChatReply::Unreachable("error sending request: connection refused".into()),
    );
    assert!(matches!(out, CleanupOutcome::Skipped(_)));
}

#[test]
fn sanitize_strips_fences_quotes_and_preambles() {
    let t = "send the report by monday";
    assert_eq!(
        sanitize_llm_output("```\nSend the report by Monday.\n```", t),
        "Send the report by Monday."
    );
    assert_eq!(
        sanitize_llm_output("\"Send the report by Monday.\"", t),
        "Send the report by Monday."
    );
    assert_eq!(
        sanitize_llm_output("Here is the cleaned text:\nSend the report by Monday.", t),
        "Send the report by Monday."
    );
}

#[test]
fn sanitize_rejects_hallucinated_essays() {
    let out = sanitize_llm_output(&"blah ".repeat(200), "short input");
    assert!(out.is_empty());
}

#[test]
fn outcome_text_or_falls_back() {
    let c = CleanupOutcome::Cleaned("clean".into());
    assert_eq!(c.text_or("raw"), "clean");
    let s = CleanupOutcome::Skipped("why".into());
    assert_eq!(s.text_or("raw"), "raw");
}

#[test]
fn sanitize_keeps_plain_text_and_non_preamble_first_lines() {
    let t = "a fairly long transcript about the weekly plan";
    assert_eq!(sanitize_llm_output("  Plain text.  ", t), "Plain text.");
    assert_eq!(
        sanitize_llm_output("First line stays\nSecond line", t),
        "First line stays\nSecond line"
    );
}

#[test]
fn sanitize_strips_language_tag_of_fence_and_trailing_quotes() {
    let t = "some transcript text here";
    assert_eq!(sanitize_llm_output("```text\nHello.\n``````", t), "Hello.");
    assert_eq!(sanitize_llm_output("\"Hello.\"\u{201D}\"", t), "Hello.");
}

#[test]
fn sanitize_length_limit_is_three_times_plus_eighty() {
    // Empty transcript counts as one character: limit 83.
    let ok = "x".repeat(83);
    let too_long = "x".repeat(84);
    assert_eq!(sanitize_llm_output(&ok, ""), ok);
    assert!(sanitize_llm_output(&too_long, "").is_empty());
}

#[test]
fn plan_reports_the_minimum_length() {
    let mut cfg = CleanupSettings::default();
    cfg.enabled = true;
    cfg.min_chars = 40;
    match plan_cleanup(&cfg, "  tiny  ", None, &[]) {
        Err(CleanupOutcome::Skipped(r)) => {
            assert_eq!(r, "transcript under 40 chars; skipping LLM")
        }
        other => panic!("unexpected {:?}", other),
    }
    cfg.enabled = false;
    match plan_cleanup(&cfg, "anything", None, &[]) {
        Err(CleanupOutcome::Skipped(r)) => assert_eq!(r, "cleanup disabled"),
        other => panic!("unexpected {:?}", other),
    }
}

#[test]
fn plan_builds_the_openai_request() {
    let mut cfg = CleanupSettings::default();
    cfg.enabled = true;
    cfg.min_chars = 1;
    cfg.timeout_ms = 10;
    cfg.provider = CleanupProvider::OpenAiCompat;
    cfg.base_url = "http://localhost:1234//".into();
    let req = plan_cleanup(&cfg, "  hello  ", None, &[]).unwrap();
    assert_eq!(req.url, "http://localhost:1234/v1/chat/completions");
    assert_eq!(req.user, "Transcript:\nhello");
    assert_eq!(req.timeout_ms, 1000);
    assert_eq!(req.temperature_tenths, 2);
    assert_eq!(req.model, "llama3.2:3b");
}

#[test]
fn finish_reports_each_failure() {
    let t = "transcript";
    let o = CleanupProvider::Ollama;
    let c = CleanupProvider::OpenAiCompat;
    assert_eq!(
        finish_cleanup(o, t, ChatReply::ClientError("e".into())),
        CleanupOutcome::Skipped("http client error: e".into())
    );
    assert_eq!(
        finish_cleanup(o, t, ChatReply::Unreachable("e".into())),
        CleanupOutcome::Skipped("ollama unreachable: e".into())
    );
    assert_eq!(
        finish_cleanup(c, t, ChatReply::Unreachable("e".into())),
        CleanupOutcome::Skipped("server unreachable: e".into())
    );
    assert_eq!(
        finish_cleanup(o, t, ChatReply::Status("500 Internal Server Error".into())),
        CleanupOutcome::Skipped("ollama returned 500 Internal Server Error".into())
    );
    assert_eq!(
        finish_cleanup(c, t, ChatReply::Status("404 Not Found".into())),
        CleanupOutcome::Skipped("server returned 404 Not Found".into())
    );
    assert_eq!(
        finish_cleanup(o, t, ChatReply::Content(None)),
        CleanupOutcome::Skipped("malformed LLM response".into())
    );
    assert_eq!(
        finish_cleanup(o, t, ChatReply::Content(Some("   ".into()))),
        CleanupOutcome::Skipped("LLM returned empty text".into())
    );
    assert_eq!(
        finish_cleanup(o, t, ChatReply::Content(Some(" Transcript. ".into()))),
        CleanupOutcome::Cleaned("Transcript.".into())
    );
}

#[test]
fn command_edit_plan_and_reply() {
    let mut cfg = CleanupSettings::default();
    cfg.timeout_ms = 5000;
    let req = plan_command_edit(&cfg, "  make it formal ", "hey there");
    assert_eq!(req.user, "Instruction: make it formal\n\nText:\nhey there");
    assert_eq!(req.timeout_ms, 10000);
    assert_eq!(req.temperature_tenths, 3);
    assert_eq!(req.url, "http://localhost:11434/api/chat");
    assert_eq!(
        finish_command_edit(ChatReply::Content(Some("```\nGood day.\n```".into()))),
        Ok("Good day.".to_string())
    );
    assert_eq!(
        finish_command_edit(ChatReply::Content(Some("``````".into()))),
        Err("LLM returned empty text".to_string())
    );
    assert_eq!(
        finish_command_edit(ChatReply::Unreachable("x".into())),
        Err("LLM unreachable: x".to_string())
    );
    assert_eq!(
        finish_command_edit(ChatReply::Status("503".into())),
        Err("LLM returned 503".to_string())
    );
}

#[test]
fn curly_quoted_output_is_unwrapped() {
    let t = "send it";
    assert_eq!(sanitize_llm_output("\u{201C}Send it.\u{201D}", t), "Send it.");
    assert_eq!(
        sanitize_llm_output("Here is the cleaned text:\n  \u{201C}Hi\u{201D} ", t),
        "Hi"
    );
    // Only a symmetrical pair is stripped.
    assert_eq!(sanitize_llm_output("\u{201C}Send it.", t), "\u{201C}Send it.");
    assert_eq!(
        finish_cleanup_checked(
            CleanupProvider::Ollama,
            "hello",
            ChatReply::Content(Some("\u{201C}Hello.\u{201D}".into()))
        ),
        Some(CleanupOutcome::Cleaned("Hello.".into()))
    );
    assert_eq!(
        finish_cleanup_checked(CleanupProvider::Ollama, "hello", ChatReply::Content(None)),
        Some(CleanupOutcome::Skipped("malformed LLM response".into()))
    );
}

#[test]
fn sanitized_text_is_a_piece_of_the_output() {
    let t = "send the report by monday";
    for out in [
        "```text\n  Send the report by Monday.  \n```",
        "Here is the cleaned transcript:\n\"Send it.\"\"",
        "\u{201C}Send it.\u{201D}\u{201D}",
        "  plain  ",
    ] {
        let r = sanitize_llm_output(out, t);
        assert!(out.contains(r.as_str()));
        assert_eq!(r, r.trim());
    }
}
