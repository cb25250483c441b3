//! Platform-agnostic core of a local dictation app: settings, personal
//! dictionary, deterministic formatting, LLM prompt building and reply
//! handling, model catalog, history, and the dictation pipeline's
//! decisions, all verified with Verus.

pub mod text;
pub mod unicode;
pub mod pattern;

pub mod settings;
pub mod dictionary;
pub mod format;
pub mod prompts;
pub mod cleanup;
pub mod models;
pub mod history;

pub mod state;
pub mod pipeline;
pub mod asr;
pub mod audio;
pub mod chime;
pub mod hotkeys;
pub mod inject;
pub mod context;
pub mod overlay;
pub mod commands;
pub mod downloads;
