# wisper_core

The logic of a fully local push-to-talk dictation app, verified with Verus:
hold a hotkey, speak, and cleaned-up text lands in the focused app.

`src/` is the verified library:

- `settings` — settings, defaults, per-app profile matching.
- `dictionary` — personal dictionary: whole-word, case-insensitive
  replacements, longest spoken form first; terms hinted to the models.
- `format` — deterministic post-processing: filler removal, spoken
  punctuation, white-space tidying, sentence capitalization.
- `prompts` — the sectioned system prompt for the cleanup LLM.
- `cleanup` — when to call the LLM, what to send, and what its reply
  means (fail-open); sanitizing model output.
- `models` — the whisper.cpp model catalog.
- `history` — which history entries a read returns and what a compaction
  writes back.
- `pipeline`, `state` — the dictation state machine and its stage decisions.
- `hotkeys`, `inject`, `overlay`, `context`, `downloads`, `commands`,
  `asr`, `audio`, `chime` — the decisions behind the desktop app's
  shortcuts, text injection, indicator, model downloads and transcription.
- `text`, `unicode`, `pattern` — character-level string primitives, and
  the results of `std`'s Unicode tables and of the `regex` crate, named.

`app/` is the desktop shell around it (Tauri, microphone, whisper.cpp,
keyboard/clipboard, HTTP, files). `tests/` exercise the library.
